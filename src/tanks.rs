use crate::common::{
    cell_index, collides_at, drawn, lcg_output, lcg_step, Dot, FrameBuffer, Prng, GREEN_IDX, RED_IDX, SCREEN_HEIGHT,
    SCREEN_WIDTH,
};
use crate::digits::Digits;
use crate::figure::{tank_figure, Figure};
use crate::snake::stick_direction;
use vstd::prelude::*;

verus! {

/// Missile slots of each tank.
pub const MISSILES: usize = 8;

/// Enemy slots.
pub const MAX_ENEMIES: usize = 4;

pub const STAGE_SPAWN: u8 = 0;

pub const STAGE_MOVE: u8 = 1;

pub const STAGE_ROTATE: u8 = 2;

pub const STAGE_FIRE: u8 = 3;

pub const STAGE_NONE: u8 = 4;

/// The heading of rotation state `r`: left, up, right, down.
pub open spec fn heading(r: int) -> Dot {
    if r == 0 {
        Dot { x: -1i8, y: 0i8 }
    } else if r == 1 {
        Dot { x: 0i8, y: -1i8 }
    } else if r == 2 {
        Dot { x: 1, y: 0 }
    } else {
        Dot { x: 0, y: 1 }
    }
}

fn heading_exec(r: u8) -> (d: Dot)
    requires
        r < 4,
    ensures
        d == heading(r as int),
{
    match r {
        0 => Dot::new(-1, 0),
        1 => Dot::new(0, -1),
        2 => Dot::new(1, 0),
        _ => Dot::new(0, 1),
    }
}

/// A shot in flight; off the screen it is spent and its slot is free.
#[derive(Clone, Copy, Debug)]
pub struct Missile {
    pub x: i8,
    pub y: i8,
    pub dx: i8,
    pub dy: i8,
}

pub open spec fn missile_visible(m: Missile) -> bool {
    0 <= m.x < SCREEN_WIDTH && 0 <= m.y < SCREEN_HEIGHT
}

impl Missile {
    pub open spec fn wf(self) -> bool {
        &&& -20 <= self.x <= 40
        &&& -20 <= self.y <= 40
        &&& -1 <= self.dx <= 1
        &&& -1 <= self.dy <= 1
    }

    pub fn new(x: i8, y: i8, dx: i8, dy: i8) -> (m: Missile)
        ensures
            m == (Missile { x, y, dx, dy }),
    {
        Missile { x, y, dx, dy }
    }

    pub fn move_(&mut self)
        requires
            old(self).wf(),
            missile_visible(*old(self)),
        ensures
            final(self).x == old(self).x + old(self).dx,
            final(self).y == old(self).y + old(self).dy,
            final(self).dx == old(self).dx,
            final(self).dy == old(self).dy,
    {
        self.x = self.x + self.dx;
        self.y = self.y + self.dy;
    }

    pub fn visible(&self) -> (r: bool)
        ensures
            r == missile_visible(*self),
    {
        self.x >= 0 && self.x < 8 && self.y >= 0 && self.y < 32
    }

    pub fn retire(&mut self)
        ensures
            final(self).x == -1 && final(self).y == -1,
            final(self).dx == old(self).dx && final(self).dy == old(self).dy,
    {
        self.x = -1;
        self.y = -1;
    }
}

/// The launch coordinate on one axis for a tank at `p` heading `d`: the
/// cell just past its two-cell box.
pub open spec fn muzzle(p: int, d: int) -> int {
    p + 1 + d - if d < 0 {
        1int
    } else {
        0
    }
}

/// One of the four headings.
pub open spec fn is_heading(d: Dot) -> bool {
    exists|j: int| 0 <= j < 4 && heading(j) == d
}

/// A step of at most one cell along one axis is zero or a heading.
pub proof fn lemma_step_is_heading(d: Dot)
    requires
        -1 <= d.x <= 1,
        -1 <= d.y <= 1,
        d.x == 0 || d.y == 0,
    ensures
        (d.x == 0 && d.y == 0) || is_heading(d),
{
    if d.x == -1 {
        assert(heading(0) == d);
    } else if d.y == -1 {
        assert(heading(1) == d);
    } else if d.x == 1 {
        assert(heading(2) == d);
    } else if d.y == 1 {
        assert(heading(3) == d);
    }
}

/// What `Tank::move_` does with a heading `d`: a tank facing `d` (or, with
/// `back`, facing away from it) steps one cell along `d` unless the sprite
/// `fig` would collide there; any other tank turns to face `d` and stays.
pub open spec fn move_effect(t0: Tank, t1: Tank, d: Dot, v: Seq<u8>, fig: Figure, back: bool) -> bool {
    let p = Dot { x: (t0.pos.x + d.x) as i8, y: (t0.pos.y + d.y) as i8 };
    let steps = t0.dir() == d || (back && t0.dir().x + d.x == 0 && t0.dir().y + d.y == 0);
    if steps {
        &&& t1.rotation == t0.rotation
        &&& t1.figure == t0.figure
        &&& t1.pos == if collides_at(v, p.x as int, p.y as int, fig) {
            t0.pos
        } else {
            p
        }
    } else {
        &&& t1.pos == t0.pos
        &&& t1.dir() == d
    }
}

/// The upright tank sprite.
pub open spec fn upright_tank() -> Figure {
    Figure { data: 0b110_011_110, wh: 51 }
}

/// The unit step toward the larger of `dx`, `dy`, then, if the other is not
/// zero, the step along it (see `TanksGame::smart_move`).
pub open spec fn preferred_dirs(dx: int, dy: int) -> Seq<Dot> {
    if abs(dx) > abs(dy) {
        let first = Dot { x: if dx > 0 { 1i8 } else { -1i8 }, y: 0 };
        if dy > 0 {
            seq![first, Dot { x: 0, y: 1 }]
        } else if dy < 0 {
            seq![first, Dot { x: 0, y: -1i8 }]
        } else {
            seq![first]
        }
    } else {
        let first = Dot { x: 0, y: if dy > 0 { 1i8 } else { -1i8 } };
        if dx > 0 {
            seq![first, Dot { x: 1, y: 0 }]
        } else if dx < 0 {
            seq![first, Dot { x: -1i8, y: 0 }]
        } else {
            seq![first]
        }
    }
}

/// Whether the cell one step along `d` is free for `t`'s sprite on `v`.
pub open spec fn step_free(t: Tank, d: Dot, v: Seq<u8>) -> bool {
    !collides_at(v, t.pos.x + d.x, t.pos.y + d.y, t.figure)
}

/// `f` is `f0` turned a quarter clockwise `k` times.
pub open spec fn turned_times(f0: Figure, f: Figure, k: nat) -> bool
    decreases k,
{
    if k == 0 {
        f == f0
    } else {
        exists|g: Figure| turned_times(f0, g, (k - 1) as nat) && #[trigger] f.is_rotation_of(g)
    }
}

/// Some pixel of `f` is set.
pub open spec fn has_pixel(f: Figure) -> bool {
    exists|c: int, r: int| #[trigger] f.pixel(c, r)
}

/// A tank: its position, heading, sprite (turned with the heading), lives,
/// the spawn slot it came from (-1 for the player) and its missiles.
#[derive(Clone, Copy, Debug)]
pub struct Tank {
    pub missiles: [Missile; 8],
    pub pos: Dot,
    pub origin: i8,
    pub rotation: u8,
    pub figure: Figure,
    pub lives: i8,
}

/// Bounds of a tank's position: every non-colliding placement of a sprite
/// with a pixel lies within them.
pub open spec fn pos_ok(p: Dot) -> bool {
    -16 <= p.x <= 8 && -16 <= p.y <= 32
}

/// A placement that does not collide puts every pixel on the grid.
proof fn lemma_free_placement_bounded(v: Seq<u8>, p: Dot, f: Figure)
    requires
        has_pixel(f),
        f.w() <= 15,
        f.h() <= 15,
        !collides_at(v, p.x as int, p.y as int, f),
    ensures
        pos_ok(p),
{
    let (c, r) = choose|c: int, r: int| #[trigger] f.pixel(c, r);
    assert(!crate::common::blocked(v, p.x as int, p.y as int, f, c, r));
}

/// A quarter turn keeps some pixel set.
proof fn lemma_rotation_keeps_pixel(r: Figure, f: Figure)
    requires
        r.is_rotation_of(f),
        has_pixel(f),
    ensures
        has_pixel(r),
{
    let (c, rr) = choose|c: int, rr: int| #[trigger] f.pixel(c, rr);
    assert(r.pixel(f.h() - 1 - rr, c) == f.pixel(c, f.h() - 1 - (f.h() - 1 - rr)));
}

impl Tank {
    pub open spec fn wf(self) -> bool {
        &&& self.rotation < 4
        &&& self.figure.wf()
        &&& has_pixel(self.figure)
        &&& self.figure.w() <= 3
        &&& self.figure.h() <= 3
        &&& pos_ok(self.pos)
        &&& -100 <= self.lives <= 1
        &&& forall|i: int| 0 <= i < MISSILES ==> (#[trigger] self.missiles@[i]).wf()
    }

    pub open spec fn dir(self) -> Dot {
        heading(self.rotation as int)
    }

    /// A tank at `pos` facing right with one life and no missiles in flight.
    pub fn new(pos: Dot, origin: i8) -> (t: Tank)
        requires
            pos_ok(pos),
        ensures
            t.wf(),
            t.pos == pos,
            t.origin == origin,
            t.rotation == 2,
            t.lives == 1,
            forall|i: int| 0 <= i < MISSILES ==> !missile_visible(#[trigger] t.missiles@[i]),
    {
        let figure = tank_figure();
        proof {
            lemma_tank_pixel(figure);
        }
        Tank {
            missiles: [Missile::new(-1, -1, 0, 0);8],
            pos,
            origin,
            rotation: 2,
            figure,
            lives: 1,
        }
    }

    pub fn player(&self) -> (r: bool)
        ensures
            r == (self.origin == -1),
    {
        self.origin == -1
    }

    pub fn direction(&self) -> (d: Dot)
        requires
            self.rotation < 4,
        ensures
            d == self.dir(),
    {
        heading_exec(self.rotation)
    }

    fn turn(&mut self)
        requires
            old(self).wf(),
        ensures
            final(self).wf(),
            final(self).rotation == (old(self).rotation + 1) % 4,
            final(self).figure.is_rotation_of(old(self).figure),
            final(self).pos == old(self).pos,
            final(self).lives == old(self).lives,
            final(self).origin == old(self).origin,
            final(self).missiles == old(self).missiles,
    {
        let f = self.figure.rotate();
        proof {
            lemma_rotation_keeps_pixel(f, self.figure);
        }
        self.figure = f;
        self.rotation = (self.rotation + 1) % 4;
    }

    /// Turns toward `direction` a quarter at a time. A zero direction turns
    /// one quarter. Returns whether it turned; `false` also when no heading
    /// matches after a full circle.
    pub fn rotate(&mut self, direction: &Dot) -> (turned: bool)
        requires
            old(self).wf(),
        ensures
            final(self).wf(),
            final(self).pos == old(self).pos,
            final(self).lives == old(self).lives,
            final(self).origin == old(self).origin,
            final(self).missiles == old(self).missiles,
            direction.x == 0 && direction.y == 0 ==> turned && final(self).rotation == (old(self).rotation + 1) % 4,
            direction.x == 0 && direction.y == 0 ==> final(self).figure.is_rotation_of(
                old(self).figure,
            ),
            is_heading(*direction) ==> {
                &&& final(self).dir() == *direction
                &&& turned == (old(self).dir() != *direction)
                &&& exists|k: nat|
                    k < 4 && final(self).rotation == (old(self).rotation + k) % 4 && turned_times(
                        old(self).figure,
                        final(self).figure,
                        k,
                    )
            },
            !(direction.x == 0 && direction.y == 0) && !is_heading(*direction) ==> !turned
                && final(self).rotation == old(self).rotation,
    {
        if direction.is_zero() {
            self.turn();
            return true;
        }
        let mut rotated: usize = 0;
        proof {
            assert(turned_times(self.figure, self.figure, 0));
        }
        while self.direction() != *direction
            invariant
                self.wf(),
                rotated < 4,
                self.rotation == (old(self).rotation + rotated) % 4,
                old(self).rotation < 4,
                turned_times(old(self).figure, self.figure, rotated as nat),
                forall|i: int| 0 <= i < rotated ==> #[trigger] heading((old(self).rotation + i) % 4) != *direction,
                rotated == 0 ==> self.rotation == old(self).rotation,
                rotated > 0 ==> old(self).dir() != *direction,
                !(direction.x == 0 && direction.y == 0),
                self.pos == old(self).pos,
                self.lives == old(self).lives,
                self.origin == old(self).origin,
                self.missiles == old(self).missiles,
            decreases 4 - rotated,
        {
            let ghost f = self.figure;
            self.turn();
            rotated = rotated + 1;
            proof {
                assert(turned_times(old(self).figure, self.figure, rotated as nat));
            }
            if rotated == 4 {
                proof {
                    assert(self.rotation == (old(self).rotation + 4) % 4);
                    assert(self.rotation == old(self).rotation);
                    if is_heading(*direction) {
                        let j = choose|j: int| 0 <= j < 4 && heading(j) == *direction;
                        let i = (j - old(self).rotation + 4) % 4;
                        assert(heading((old(self).rotation + i) % 4) == heading(j));
                    }
                }
                return false;
            }
        }
        rotated > 0
    }

    /// Moves one cell along `direction` where the sprite `fig` would not
    /// collide there on `screen`. A tank not facing `direction` turns
    /// instead, unless `allow_backward` lets it back up without turning.
    pub fn move_(&mut self, direction: &Dot, screen: &FrameBuffer, fig: &Figure, allow_backward: bool)
        requires
            old(self).wf(),
            has_pixel(*fig),
            fig.w() <= 15,
            fig.h() <= 15,
            (direction.x == 0 && direction.y == 0) || is_heading(*direction),
        ensures
            final(self).wf(),
            final(self).lives == old(self).lives,
            final(self).origin == old(self).origin,
            final(self).missiles == old(self).missiles,
            direction.x == 0 && direction.y == 0 ==> *final(self) == *old(self),
            is_heading(*direction) ==> move_effect(
                *old(self),
                *final(self),
                *direction,
                screen@,
                *fig,
                allow_backward,
            ),
    {
        if !direction.is_zero() && ((allow_backward && self.direction().is_opposite(direction))
            || !self.rotate(direction)) {
            let pos = self.pos.move_by(*direction);
            if !screen.collides(pos.x, pos.y, fig) {
                proof {
                    lemma_free_placement_bounded(screen@, pos, *fig);
                }
                self.pos = pos;
            }
        }
    }

    pub fn move_forward(&mut self)
        requires
            old(self).wf(),
            pos_ok(
                Dot {
                    x: (old(self).pos.x + old(self).dir().x) as i8,
                    y: (old(self).pos.y + old(self).dir().y) as i8,
                },
            ),
        ensures
            final(self).wf(),
            final(self).pos.x == old(self).pos.x + old(self).dir().x,
            final(self).pos.y == old(self).pos.y + old(self).dir().y,
            final(self).rotation == old(self).rotation,
            final(self).figure == old(self).figure,
            final(self).lives == old(self).lives,
            final(self).origin == old(self).origin,
            final(self).missiles == old(self).missiles,
    {
        let direction = self.direction();
        self.pos = self.pos.move_by(direction);
    }

    /// Launches a missile from the tank's leading edge, just outside its
    /// two-by-two box along its heading, in the first free slot; with every
    /// slot in flight nothing happens.
    pub fn fire(&mut self)
        requires
            old(self).wf(),
        ensures
            final(self).wf(),
            final(self).pos == old(self).pos,
            final(self).rotation == old(self).rotation,
            final(self).figure == old(self).figure,
            final(self).lives == old(self).lives,
            final(self).origin == old(self).origin,
            (forall|i: int| 0 <= i < MISSILES ==> missile_visible(#[trigger] old(self).missiles@[i]))
                ==> final(self).missiles == old(self).missiles,
            forall|k: int|
                0 <= k < MISSILES && !missile_visible(#[trigger] old(self).missiles@[k]) && (forall|
                    j: int,
                | 0 <= j < k ==> missile_visible(#[trigger] old(self).missiles@[j])) ==> {
                    &&& final(self).missiles@[k] == (Missile {
                        x: muzzle(old(self).pos.x as int, old(self).dir().x as int) as i8,
                        y: muzzle(old(self).pos.y as int, old(self).dir().y as int) as i8,
                        dx: old(self).dir().x,
                        dy: old(self).dir().y,
                    })
                    &&& forall|j: int|
                        0 <= j < MISSILES && j != k ==> final(self).missiles@[j] == old(self).missiles@[j]
                },
    {
        let direction = self.direction();
        let mut i: usize = 0;
        while i < MISSILES
            invariant
                *self == *old(self),
                old(self).wf(),
                direction == self.dir(),
                i <= MISSILES,
                forall|j: int| 0 <= j < i ==> missile_visible(#[trigger] self.missiles@[j]),
            decreases MISSILES - i,
        {
            if !self.missiles[i].visible() {
                let mut mx = self.pos.x + 1 + direction.x;
                let mut my = self.pos.y + 1 + direction.y;
                if direction.x < 0 {
                    mx = mx - 1;
                }
                if direction.y < 0 {
                    my = my - 1;
                }
                self.missiles[i] = Missile::new(mx, my, direction.x, direction.y);
                return;
            }
            i = i + 1;
        }
    }

    /// Moves each missile in flight one step; one that leaves the screen
    /// is spent.
    pub fn move_missiles(&mut self)
        requires
            old(self).wf(),
        ensures
            final(self).wf(),
            final(self).pos == old(self).pos,
            final(self).rotation == old(self).rotation,
            final(self).figure == old(self).figure,
            final(self).lives == old(self).lives,
            final(self).origin == old(self).origin,
            forall|i: int|
                0 <= i < MISSILES ==> {
                    let m = #[trigger] old(self).missiles@[i];
                    let n = final(self).missiles@[i];
                    if !missile_visible(m) {
                        n == m
                    } else {
                        let moved = Missile {
                            x: (m.x + m.dx) as i8,
                            y: (m.y + m.dy) as i8,
                            dx: m.dx,
                            dy: m.dy,
                        };
                        if missile_visible(moved) {
                            n == moved
                        } else {
                            n == Missile { x: -1i8, y: -1i8, dx: m.dx, dy: m.dy }
                        }
                    }
                },
    {
        let mut i: usize = 0;
        while i < MISSILES
            invariant
                i <= MISSILES,
                self.pos == old(self).pos,
                self.rotation == old(self).rotation,
                self.figure == old(self).figure,
                self.lives == old(self).lives,
                self.origin == old(self).origin,
                old(self).wf(),
                forall|k: int| 0 <= k < MISSILES ==> (#[trigger] self.missiles@[k]).wf(),
                forall|k: int|
                    i <= k < MISSILES ==> #[trigger] self.missiles@[k] == old(self).missiles@[k],
                forall|k: int|
                    0 <= k < i ==> {
                        let m = #[trigger] old(self).missiles@[k];
                        let n = self.missiles@[k];
                        if !missile_visible(m) {
                            n == m
                        } else {
                            let moved = Missile {
                                x: (m.x + m.dx) as i8,
                                y: (m.y + m.dy) as i8,
                                dx: m.dx,
                                dy: m.dy,
                            };
                            if missile_visible(moved) {
                                n == moved
                            } else {
                                n == Missile { x: -1i8, y: -1i8, dx: m.dx, dy: m.dy }
                            }
                        }
                    },
            decreases MISSILES - i,
        {
            let mut m = self.missiles[i];
            if m.visible() {
                m.move_();
                if !m.visible() {
                    m.retire();
                }
            }
            self.missiles[i] = m;
            i = i + 1;
        }
    }

    /// Whether `pos` lies in the tank's two-by-two hit box.
    pub fn collides(&self, pos: Dot) -> (r: bool)
        ensures
            r == (self.pos.x <= pos.x < self.pos.x + 2 && self.pos.y <= pos.y < self.pos.y + 2),
    {
        pos.x as i16 >= self.pos.x as i16 && (pos.x as i16) < self.pos.x as i16 + 2 && pos.y as i16
            >= self.pos.y as i16 && (pos.y as i16) < self.pos.y as i16 + 2
    }

    /// Takes a life; lives stop at -100.
    pub fn hit(&mut self)
        ensures
            final(self).lives == if old(self).lives > -100 {
                old(self).lives - 1
            } else {
                old(self).lives as int
            },
            final(self).pos == old(self).pos,
            final(self).rotation == old(self).rotation,
            final(self).figure == old(self).figure,
            final(self).origin == old(self).origin,
            final(self).missiles == old(self).missiles,
    {
        if self.lives > -100 {
            self.lives = self.lives - 1;
        }
    }

    pub fn is_dead(&self) -> (r: bool)
        ensures
            r == (self.lives <= 0),
    {
        self.lives <= 0
    }

    pub fn is_dying(&self) -> (r: bool)
        ensures
            r == (self.lives < 0),
    {
        self.lives < 0
    }
}

/// The stage picked from slot `k` of the weighted stage table; the
/// aggressive table (player on one life or less) favours firing.
pub open spec fn stage_table(aggressive: bool, k: int) -> u8 {
    if aggressive {
        if k < 4 {
            STAGE_FIRE
        } else if k < 6 {
            STAGE_MOVE
        } else if k < 8 {
            STAGE_ROTATE
        } else {
            STAGE_NONE
        }
    } else {
        if k < 2 {
            STAGE_FIRE
        } else if k < 5 {
            STAGE_MOVE
        } else if k < 8 {
            STAGE_ROTATE
        } else {
            STAGE_NONE
        }
    }
}

fn stage_table_exec(aggressive: bool, k: u8) -> (s: u8)
    ensures
        s == stage_table(aggressive, k as int),
{
    if aggressive {
        if k < 4 {
            STAGE_FIRE
        } else if k < 6 {
            STAGE_MOVE
        } else if k < 8 {
            STAGE_ROTATE
        } else {
            STAGE_NONE
        }
    } else {
        if k < 2 {
            STAGE_FIRE
        } else if k < 5 {
            STAGE_MOVE
        } else if k < 8 {
            STAGE_ROTATE
        } else {
            STAGE_NONE
        }
    }
}

/// The fixed spawn points of the enemies, by slot.
pub open spec fn spawn_point(idx: int) -> Dot {
    if idx == 0 {
        Dot { x: 0, y: 6 }
    } else if idx == 1 {
        Dot { x: 5, y: 6 }
    } else if idx == 2 {
        Dot { x: 0, y: 29 }
    } else {
        Dot { x: 5, y: 29 }
    }
}

fn spawn_point_exec(idx: usize) -> (d: Dot)
    requires
        idx < 4,
    ensures
        d == spawn_point(idx as int),
{
    match idx {
        0 => Dot::new(0, 6),
        1 => Dot::new(5, 6),
        2 => Dot::new(0, 29),
        _ => Dot::new(5, 29),
    }
}

pub open spec fn abs(v: int) -> int {
    if v < 0 {
        -v
    } else {
        v
    }
}

/// Whether `tank`, from the centre of its box, faces the centre of the
/// player's box along a shared row or column.
pub open spec fn can_hit(tank: Tank, player: Tank) -> bool {
    let d = tank.dir();
    let (px, py) = (tank.pos.x + 1, tank.pos.y + 1);
    let (qx, qy) = (player.pos.x + 1, player.pos.y + 1);
    if d.x != 0 {
        py == qy && ((d.x > 0 && px < qx) || (d.x < 0 && px > qx))
    } else if d.y != 0 {
        px == qx && ((d.y > 0 && py < qy) || (d.y < 0 && py > qy))
    } else {
        false
    }
}

/// Whether the sprite of `tank` can stand on the first few cells (at most
/// four) of the straight line from its centre toward the centre of `target`.
pub open spec fn line_of_sight(v: Seq<u8>, tank: Tank, target: Dot) -> bool {
    let (cx, cy) = (tank.pos.x + 1, tank.pos.y + 1);
    let dx = target.x + 1 - cx;
    let dy = target.y + 1 - cy;
    let steps = if abs(dx) > abs(dy) {
        abs(dx)
    } else {
        abs(dy)
    };
    let sx = if dx == 0 {
        0
    } else if dx > 0 {
        1
    } else {
        -1int
    };
    let sy = if dy == 0 {
        0
    } else if dy > 0 {
        1
    } else {
        -1int
    };
    let limit = if steps < 5 {
        steps
    } else {
        5
    };
    if dx != 0 && dy != 0 {
        false
    } else {
        sight_clear(v, tank.figure, cx, cy, sx, sy, limit)
    }
}

/// The sprite `fig` can stand at the cells `(cx, cy) + k * (sx, sy)` for
/// `1 <= k < limit`.
pub open spec fn sight_clear(v: Seq<u8>, fig: Figure, cx: int, cy: int, sx: int, sy: int, limit: int) -> bool {
    forall|k: int| 1 <= k < limit ==> !#[trigger] collides_at(v, cx + k * sx, cy + k * sy, fig)
}

/// Whether the missile `m` is in flight inside the two-by-two box at `p`.
pub open spec fn hits_box(m: Missile, p: Dot) -> bool {
    missile_visible(m) && p.x <= m.x < p.x + 2 && p.y <= m.y < p.y + 2
}

/// How many of the first `f` enemy missiles (eight per enemy, enemy by
/// enemy) are inside the player's box at `p`.
pub open spec fn player_hits(es: Seq<Tank>, p: Dot, f: int) -> int
    decreases f,
{
    if f <= 0 {
        0
    } else {
        player_hits(es, p, f - 1) + if hits_box(es[(f - 1) / 8].missiles@[(f - 1) % 8], p) {
            1int
        } else {
            0
        }
    }
}

proof fn lemma_player_hits_bound(es: Seq<Tank>, p: Dot, f: int)
    ensures
        0 <= player_hits(es, p, f) <= if f < 0 {
            0
        } else {
            f
        },
    decreases f,
{
    if f > 0 {
        lemma_player_hits_bound(es, p, f - 1);
    }
}

/// The first `n` tanks of `ts` have at least `lo` lives.
pub open spec fn lives_above(ts: Seq<Tank>, n: int, lo: int) -> bool {
    forall|j: int| 0 <= j < n ==> (#[trigger] ts[j]).lives >= lo
}

/// `v`, or the largest `u32` if it is larger.
pub open spec fn sat_u32(v: int) -> int {
    if v > u32::MAX {
        u32::MAX as int
    } else {
        v
    }
}

/// Whether player missile `m` hits enemy `j` of the first `n`: it is in
/// flight inside that enemy's box and inside no earlier enemy's box.
pub open spec fn first_hit(m: Missile, es: Seq<Tank>, n: int, j: int) -> bool {
    &&& 0 <= j < n
    &&& hits_box(m, es[j].pos)
    &&& forall|i: int| 0 <= i < j ==> !#[trigger] hits_box(m, es[i].pos)
}

/// How many of the first `k` player missiles hit enemy `j`.
pub open spec fn hits_on(ms: Seq<Missile>, k: int, es: Seq<Tank>, n: int, j: int) -> int
    decreases k,
{
    if k <= 0 {
        0
    } else {
        hits_on(ms, k - 1, es, n, j) + if first_hit(ms[k - 1], es, n, j) {
            1int
        } else {
            0
        }
    }
}

/// Of `h` hits on a tank with `l` lives, how many leave it without lives.
pub open spec fn kills(l: int, h: int) -> int {
    if h <= 0 {
        0
    } else if l <= 0 {
        h
    } else if h - l + 1 > 0 {
        h - l + 1
    } else {
        0
    }
}

/// The kills that the first `k` player missiles make on the first `upto`
/// of the first `n` enemies.
pub open spec fn kill_sum(ms: Seq<Missile>, k: int, es: Seq<Tank>, n: int, upto: int) -> int
    decreases upto,
{
    if upto <= 0 {
        0
    } else {
        kill_sum(ms, k, es, n, upto - 1) + kills(es[upto - 1].lives as int, hits_on(ms, k, es, n, upto - 1))
    }
}

proof fn lemma_hits_on_bound(ms: Seq<Missile>, k: int, es: Seq<Tank>, n: int, j: int)
    ensures
        0 <= hits_on(ms, k, es, n, j) <= if k < 0 {
            0
        } else {
            k
        },
    decreases k,
{
    if k > 0 {
        lemma_hits_on_bound(ms, k - 1, es, n, j);
    }
}

proof fn lemma_kill_sum_start(ms: Seq<Missile>, es: Seq<Tank>, n: int, upto: int)
    ensures
        kill_sum(ms, 0, es, n, upto) == 0,
    decreases upto,
{
    if upto > 0 {
        lemma_kill_sum_start(ms, es, n, upto - 1);
    }
}

proof fn lemma_kills_step(l: int, h: int)
    requires
        h >= 0,
    ensures
        kills(l, h + 1) - kills(l, h) == if l - (h + 1) <= 0 {
            1int
        } else {
            0
        },
{
}

/// `b` is `a` but for slot `sel`.
pub open spec fn only_changed_at(a: Seq<Tank>, b: Seq<Tank>, sel: int) -> bool {
    forall|k: int| 0 <= k < MAX_ENEMIES && k != sel ==> #[trigger] b[k] == a[k]
}

/// `t` is one of the first `n` tanks of `ts`.
pub open spec fn is_one_of(ts: Seq<Tank>, n: int, t: Tank) -> bool {
    exists|k: int| 0 <= k < n && ts[k] == t
}

/// The first `n1` tanks of `t1` are those of the first `n0` of `t0` that
/// have lives left, in some order.
pub open spec fn kept_living(t0: Seq<Tank>, n0: int, t1: Seq<Tank>, n1: int) -> bool {
    &&& forall|i: int| 0 <= i < n1 ==> (#[trigger] t1[i]).lives > 0
    &&& forall|i: int| 0 <= i < n1 ==> #[trigger] is_one_of(t0, n0, t1[i])
    &&& forall|j: int| 0 <= j < n0 && (#[trigger] t0[j]).lives > 0 ==> is_one_of(t1, n1, t0[j])
}

/// The first `n` tanks of `ts` came from pairwise different spawn points.
pub open spec fn origins_distinct(ts: Seq<Tank>, n: int) -> bool {
    forall|i: int, j: int|
        0 <= i < n && 0 <= j < n && i != j ==> #[trigger] ts[i].origin != #[trigger] ts[j].origin
}

/// Sum of the first `k` weights.
pub open spec fn wsum(w: Seq<i32>, k: int) -> int
    decreases k,
{
    if k <= 0 {
        0
    } else {
        wsum(w, k - 1) + w[k - 1]
    }
}

/// Some enemy slot came from spawn point `j`.
pub open spec fn origin_taken(enemies: Seq<Tank>, j: int) -> bool {
    exists|i: int| 0 <= i < MAX_ENEMIES && enemies[i].origin == j
}

/// What a stage does to an enemy's position and heading: a move steps
/// ahead when the cell is free and else turns a quarter, a plain rotate
/// turns a quarter, firing (and any other stage) keeps them; a rotate
/// toward the player keeps the position.
pub open spec fn stage_acted(e0: Tank, e1: Tank, stage: u8, smart_rotate: bool, v: Seq<u8>) -> bool {
    let ahead = Dot { x: (e0.pos.x + e0.dir().x) as i8, y: (e0.pos.y + e0.dir().y) as i8 };
    if stage == STAGE_MOVE {
        if !collides_at(v, ahead.x as int, ahead.y as int, e0.figure) {
            e1.pos == ahead && e1.rotation == e0.rotation && e1.figure == e0.figure
        } else {
            e1.pos == e0.pos && e1.rotation == (e0.rotation + 1) % 4 && e1.figure.is_rotation_of(
                e0.figure,
            )
        }
    } else if stage == STAGE_ROTATE && !smart_rotate {
        e1.pos == e0.pos && e1.rotation == (e0.rotation + 1) % 4 && e1.figure.is_rotation_of(
            e0.figure,
        )
    } else if stage == STAGE_ROTATE {
        e1.pos == e0.pos
    } else {
        e1.pos == e0.pos && e1.rotation == e0.rotation && e1.figure == e0.figure
    }
}

/// One enemy round, from `s0` to `s1` (see `update_enemies`).
pub open spec fn enemies_updated(s0: TanksGame, s1: TanksGame) -> bool {
    &&& (s1.tank == s0.tank)
    &&& (s1.score == s0.score)
    &&& (s1.lives == s0.lives)
    &&& (s1.step == s0.step)
    &&& (s1.round == s0.round)
    &&& (s1.enemy_count == s0.enemy_count || s1.enemy_count
        == s0.enemy_count + 1)
    &&& (s1.enemy_count == s0.enemy_count + 1 ==> s0.enemy_count <= 1)
    &&& (s1.enemy_count == s0.enemy_count + 1 ==> {
        let t = s1.enemies@[s0.enemy_count as int];
        &&& 0 <= t.origin < 4
        &&& t.pos == spawn_point(t.origin as int)
        &&& t.lives == 1
        &&& forall|i: int|
            0 <= i < MAX_ENEMIES ==> (#[trigger] s0.enemies@[i]).origin != t.origin
        &&& forall|j: int| 0 <= j < t.origin ==> #[trigger] origin_taken(s0.enemies@, j)
    })
    &&& (s0.enemy_count <= 1 && s0.enemy_count < MAX_ENEMIES && (exists|j: int|
        0 <= j < 4 && !#[trigger] origin_taken(s0.enemies@, j))
        ==> s1.enemy_count == s0.enemy_count + 1)
    &&& (s0.enemy_count <= 1 ==> s1.prng == s0.prng)
    &&& (s0.enemy_count <= 1 ==> only_changed_at(s0.enemies@, s1.enemies@, s0.enemy_count as int))
    &&& (s0.enemy_count <= 1 && s1.enemy_count == s0.enemy_count ==> s1.enemies == s0.enemies)
    &&& (s0.enemy_count > 1 ==> {
        let stage = stage_table(
            s0.tank.lives <= 1,
            crate::common::lcg_output(crate::common::lcg_step(s0.prng@)) as int % 9,
        );
        &&& s1.enemy_count == s0.enemy_count
        &&& stage == STAGE_NONE ==> s1.enemies == s0.enemies
        &&& forall|i: int|
            0 <= i < s0.enemy_count ==> {
                let e0 = #[trigger] s0.enemies@[i];
                let e1 = s1.enemies@[i];
                &&& e0.lives < 0 ==> e1 == e0
                &&& e0.lives >= 0 ==> e1.origin == e0.origin && e1.lives == e0.lives
                    && stage_acted(e0, e1, stage, false, s0.screen@)
            }
    })
}

/// Hits resolved, from `s0` to `s1` (see `check_collisions`).
pub open spec fn collisions_resolved(s0: TanksGame, s1: TanksGame) -> bool {
    &&& (exists|mid: TanksGame|
        {
            &&& mid.wf()
            &&& mid.tank.pos == s0.tank.pos
            &&& mid.tank.missiles == s0.tank.missiles
            &&& mid.score == s0.score
            &&& mid.enemy_count == s0.enemy_count
            &&& s0.tank.lives >= -60 ==> mid.tank.lives == s0.tank.lives
                - player_hits(s0.enemies@, s0.tank.pos, s0.enemy_count * 8)
            &&& forall|i: int|
                0 <= i < MAX_ENEMIES ==> {
                    let e0 = #[trigger] s0.enemies@[i];
                    let e1 = mid.enemies@[i];
                    &&& e1.pos == e0.pos && e1.lives == e0.lives
                    &&& forall|k: int|
                        0 <= k < MISSILES ==> #[trigger] e1.missiles@[k] == if i < s0.enemy_count && hits_box(e0.missiles@[k], s0.tank.pos) {
                            Missile { x: -1i8, y: -1i8, dx: e0.missiles@[k].dx, dy: e0.missiles@[k].dy }
                        } else {
                            e0.missiles@[k]
                        }
                }
            &&& s1.tank.lives == mid.tank.lives
            &&& s1.enemy_count == mid.enemy_count
            &&& s1.score >= mid.score
            &&& lives_above(mid.enemies@, mid.enemy_count as int, -90) ==> {
                &&& forall|j: int|
                    0 <= j < mid.enemy_count ==> (#[trigger] s1.enemies@[j]).lives == mid.enemies@[j].lives
                        - hits_on(mid.tank.missiles@, MISSILES as int, mid.enemies@, mid.enemy_count as int, j)
                &&& s1.score == sat_u32(
                    mid.score + 100 * kill_sum(
                        mid.tank.missiles@,
                        MISSILES as int,
                        mid.enemies@,
                        mid.enemy_count as int,
                        mid.enemy_count as int,
                    ),
                )
            }
            &&& forall|k: int|
                0 <= k < MISSILES ==> {
                    let m = #[trigger] mid.tank.missiles@[k];
                    s1.tank.missiles@[k] == if missile_visible(m) && exists|j: int|
                        0 <= j < mid.enemy_count && hits_box(m, mid.enemies@[j].pos) {
                        Missile { x: -1i8, y: -1i8, dx: m.dx, dy: m.dy }
                    } else {
                        m
                    }
                }
            &&& forall|j: int|
                0 <= j < MAX_ENEMIES ==> {
                    let e1 = #[trigger] mid.enemies@[j];
                    let e2 = s1.enemies@[j];
                    e2.pos == e1.pos && e2.missiles == e1.missiles && e2.lives <= e1.lives
                        && (j >= mid.enemy_count ==> e2.lives == e1.lives)
                }
        })
    &&& (s1.enemy_count == s0.enemy_count)
    &&& (s1.tank.pos == s0.tank.pos)
    &&& (s1.tank.lives <= s0.tank.lives)
    &&& (s1.score >= s0.score)
    &&& (s1.lives == s0.lives)
    &&& (s1.step == s0.step)
    &&& (s1.round == s0.round)
}

/// One AI round, from `s0` to `s1` (see `ai`).
#[verifier::opaque]
pub open spec fn ai_round(s0: TanksGame, s1: TanksGame) -> bool {
    let stage = stage_table(s0.tank.lives <= 1, lcg_output(lcg_step(s0.prng@)) as int % 9);
    &&& s1.tank == s0.tank
    &&& s1.score == s0.score
    &&& s1.lives == s0.lives
    &&& s1.step == s0.step
    &&& s1.round == s0.round
    &&& s1.enemy_count <= s0.enemy_count + 1
    &&& origins_distinct(s1.enemies@, s1.enemy_count as int)
    &&& forall|i: int, j: int|
        0 <= i < s1.enemy_count && 0 <= j < s1.enemy_count && i != j ==> #[trigger] s1.enemies@[i]
            != #[trigger] s1.enemies@[j]
    &&& s0.enemy_count > 1 && stage == STAGE_NONE && (forall|k: int|
        0 <= k < s0.enemy_count ==> (#[trigger] s0.enemies@[k]).lives > 0) ==> s1.enemies
        == s0.enemies && s1.enemy_count == s0.enemy_count
    &&& exists|mid: TanksGame|
        {
            &&& kept_living(mid.enemies@, mid.enemy_count as int, s1.enemies@, s1.enemy_count as int)
            &&& (forall|k: int| 0 <= k < mid.enemy_count ==> (#[trigger] mid.enemies@[k]).lives > 0)
                ==> s1.enemies == mid.enemies && s1.enemy_count == mid.enemy_count
            &&& s0.enemy_count <= 1 ==> {
                &&& (exists|j: int| 0 <= j < 4 && !#[trigger] origin_taken(s0.enemies@, j))
                    ==> mid.enemy_count == s0.enemy_count + 1
                &&& {
                    ||| mid.enemies == s0.enemies && mid.enemy_count == s0.enemy_count
                    ||| {
                        let t = mid.enemies@[s0.enemy_count as int];
                        &&& mid.enemy_count == s0.enemy_count + 1
                        &&& 0 <= t.origin < 4
                        &&& t.pos == spawn_point(t.origin as int)
                        &&& t.lives == 1
                        &&& !origin_taken(s0.enemies@, t.origin as int)
                        &&& mid.enemies@ == s0.enemies@.update(s0.enemy_count as int, t)
                    }
                }
            }
            &&& s0.enemy_count > 1 ==> {
                &&& mid.enemy_count == s0.enemy_count
                &&& stage == STAGE_NONE ==> mid.enemies == s0.enemies
                &&& stage != STAGE_NONE ==> exists|sel: int|
                    0 <= sel < MAX_ENEMIES && #[trigger] only_changed_at(s0.enemies@, mid.enemies@, sel)
                        && ((exists|k: int|
                        0 <= k < s0.enemy_count && (#[trigger] s0.enemies@[k]).lives >= 0) ==> {
                        &&& sel < s0.enemy_count
                        &&& s0.enemies@[sel].lives >= 0
                        &&& mid.enemies@[sel].origin == s0.enemies@[sel].origin
                        &&& mid.enemies@[sel].lives == s0.enemies@[sel].lives
                        &&& stage_acted(s0.enemies@[sel], mid.enemies@[sel], stage, true, s0.screen@)
                    })
            }
        }
}

/// One frame of play from `s0` to `fin` through the player's step `s1`,
/// the enemy round `s2`, the hits `s3`, the redrawn frame `s3d` and the AI
/// round `s4` (see `TanksGame::tick`).
pub open spec fn tank_tick(
    s0: TanksGame,
    s1: TanksGame,
    s2: TanksGame,
    s3: TanksGame,
    s3d: TanksGame,
    s4: TanksGame,
    fin: TanksGame,
    x_input: i8,
    y_input: i8,
) -> bool {
    let d = stick_direction(x_input, y_input);
    &&& s1.wf()
    &&& s1.enemies == s0.enemies
    &&& s1.enemy_count == s0.enemy_count
    &&& s1.score == s0.score
    &&& s1.lives == s0.lives
    &&& s1.step == s0.step
    &&& s1.round == s0.round
    &&& s1.prng == s0.prng
    &&& s1.tank.lives == s0.tank.lives
    &&& s1.tank.origin == s0.tank.origin
    &&& (s1.tank.pos == s0.tank.pos || (s1.tank.pos.x == s0.tank.pos.x
        + d.x && s1.tank.pos.y == s0.tank.pos.y + d.y))
    &&& enemies_updated(s1, s2)
    &&& collisions_resolved(s2, s3)
    &&& if s3.step >= (if s3.round > s3.score / 10 {
        s3.round - s3.score / 10
    } else {
        0
    }) {
        &&& s3d.tank == s3.tank && s3d.enemies == s3.enemies && s3d.enemy_count == s3.enemy_count
            && s3d.score == s3.score && s3d.lives == s3.lives && s3d.prng == s3.prng && s3d.step
            == s3.step && s3d.round == s3.round
        &&& ai_round(s3d, s4)
        &&& fin.step == 1
        &&& fin.round == if s3.round < u32::MAX {
            s3.round + 1
        } else {
            s3.round as int
        }
    } else {
        &&& s4 == s3
        &&& fin.step == if s3.step < u32::MAX {
            s3.step + 1
        } else {
            s3.step as int
        }
        &&& fin.round == s3.round
    }
    &&& fin.tank == s4.tank
    &&& fin.enemies == s4.enemies
    &&& fin.enemy_count == s4.enemy_count
    &&& fin.score == s4.score
    &&& fin.lives == s4.lives
    &&& fin.prng == s4.prng
    }

/// The tanks game: the player's tank, up to four enemies, score and lives.
pub struct TanksGame {
    pub screen: FrameBuffer,
    pub tank: Tank,
    pub enemies: [Tank; 4],
    pub enemy_count: usize,
    pub score: u32,
    pub lives: i8,
    pub prng: Prng,
    pub step: u32,
    pub round: u32,
}

impl TanksGame {
    pub open spec fn wf(&self) -> bool {
        &&& self.tank.wf()
        &&& forall|i: int| 0 <= i < MAX_ENEMIES ==> (#[trigger] self.enemies@[i]).wf()
        &&& self.enemy_count <= MAX_ENEMIES
        &&& 0 <= self.lives <= 3
        &&& origins_distinct(self.enemies@, self.enemy_count as int)
    }

    /// The player at (3, 16) with three lives; no enemies yet.
    pub fn new(prng: Prng) -> (g: TanksGame)
        ensures
            g.wf(),
            g.tank.pos == (Dot { x: 3, y: 16 }),
            g.tank.origin == -1,
            g.enemy_count == 0,
            g.score == 0,
            g.lives == 3,
            g.prng == prng,
    {
        TanksGame {
            screen: FrameBuffer::new(),
            tank: Tank::new(Dot::new(3, 16), -1),
            enemies: [Tank::new(Dot::new(0, 0), 0);4],
            enemy_count: 0,
            score: 0,
            lives: 3,
            prng,
            step: 10,
            round: 10,
        }
    }

    pub fn can_hit_player(&self, tank: &Tank) -> (r: bool)
        requires
            tank.wf(),
            self.tank.wf(),
        ensures
            r == can_hit(*tank, self.tank),
    {
        let direction = tank.direction();
        let pos = tank.pos.move_by(Dot::new(1, 1));
        let player_center = self.tank.pos.move_by(Dot::new(1, 1));
        if direction.x != 0 {
            pos.y == player_center.y && ((direction.x > 0 && pos.x < player_center.x) || (
            direction.x < 0 && pos.x > player_center.x))
        } else if direction.y != 0 {
            pos.x == player_center.x && ((direction.y > 0 && pos.y < player_center.y) || (
            direction.y < 0 && pos.y > player_center.y))
        } else {
            false
        }
    }

    #[verifier::loop_isolation(false)]
    pub fn has_line_of_sight(&self, tank: &Tank, target_pos: Dot) -> (r: bool)
        requires
            tank.wf(),
            pos_ok(target_pos),
        ensures
            r == line_of_sight(self.screen@, *tank, target_pos),
    {
        let tank_center = tank.pos.move_by(Dot::new(1, 1));
        let target_center = target_pos.move_by(Dot::new(1, 1));
        let dx = target_center.x - tank_center.x;
        let dy = target_center.y - tank_center.y;
        if dx != 0 && dy != 0 {
            return false;
        }
        let adx: i8 = if dx < 0 {
            -dx
        } else {
            dx
        };
        let ady: i8 = if dy < 0 {
            -dy
        } else {
            dy
        };
        let steps: i8 = if adx > ady {
            adx
        } else {
            ady
        };
        if steps == 0 {
            return true;
        }
        let step_x: i8 = if dx == 0 {
            0
        } else if dx > 0 {
            1
        } else {
            -1
        };
        let step_y: i8 = if dy == 0 {
            0
        } else if dy > 0 {
            1
        } else {
            -1
        };
        let limit: i8 = if steps < 5 {
            steps
        } else {
            5
        };
        let mut i: i8 = 1;
        while i < limit
            invariant
                1 <= i,
                limit <= 5,
                i <= limit || limit < 1,
                tank.wf(),
                -1 <= step_x <= 1,
                -1 <= step_y <= 1,
                -20 <= tank_center.x <= 20,
                -20 <= tank_center.y <= 40,
                tank_center.x == tank.pos.x + 1,
                tank_center.y == tank.pos.y + 1,
                sight_clear(
                    self.screen@,
                    tank.figure,
                    tank_center.x as int,
                    tank_center.y as int,
                    step_x as int,
                    step_y as int,
                    i as int,
                ),
            decreases limit - i,
        {
            assert(-5 <= i * step_x <= 5 && -5 <= i * step_y <= 5) by (nonlinear_arith)
                requires
                    1 <= i < 5,
                    -1 <= step_x <= 1,
                    -1 <= step_y <= 1,
            ;
            let check = Dot::new(tank_center.x + i * step_x, tank_center.y + i * step_y);
            if self.screen.collides(check.x, check.y, &tank.figure) {
                proof {
                    let k = i as int;
                    assert(collides_at(
                        self.screen@,
                        tank_center.x as int + k * step_x as int,
                        tank_center.y as int + k * step_y as int,
                        tank.figure,
                    ));
                    assert(!sight_clear(
                        self.screen@,
                        tank.figure,
                        tank_center.x as int,
                        tank_center.y as int,
                        step_x as int,
                        step_y as int,
                        limit as int,
                    ));
                }
                return false;
            }
            i = i + 1;
        }
        true
    }

    /// The AI stage of this round: spawning while fewer than two enemies
    /// are on the field, else a draw from the weighted stage table.
    pub fn choose_stage(&mut self) -> (stage: u8)
        ensures
            old(self).enemy_count <= 1 ==> stage == STAGE_SPAWN && final(self).prng == old(self).prng,
            old(self).enemy_count > 1 ==> {
                &&& final(self).prng@ == crate::common::lcg_step(old(self).prng@)
                &&& stage == stage_table(
                    old(self).tank.lives <= 1,
                    crate::common::lcg_output(final(self).prng@) as int % 9,
                )
            },
            final(self).tank == old(self).tank,
            final(self).enemies == old(self).enemies,
            final(self).enemy_count == old(self).enemy_count,
            final(self).screen == old(self).screen,
            final(self).score == old(self).score,
            final(self).lives == old(self).lives,
            final(self).step == old(self).step,
            final(self).round == old(self).round,
    {
        if self.enemy_count > 1 {
            let k = self.prng.next_range(9);
            stage_table_exec(self.tank.lives <= 1, k)
        } else {
            STAGE_SPAWN
        }
    }

    /// Whether some enemy slot (live or not) came from spawn point `idx`.
    fn spawn_taken(&self, idx: usize) -> (r: bool)
        requires
            idx < 4,
        ensures
            r == exists|i: int| 0 <= i < MAX_ENEMIES && self.enemies@[i].origin == idx,
    {
        let idx8: i8 = idx as i8;
        assert(idx8 == idx);
        let mut i: usize = 0;
        while i < MAX_ENEMIES
            invariant
                i <= MAX_ENEMIES,
                idx8 == idx,
                forall|k: int| 0 <= k < i ==> self.enemies@[k].origin != idx,
            decreases MAX_ENEMIES - i,
        {
            if self.enemies[i].origin == idx8 {
                return true;
            }
            i = i + 1;
        }
        false
    }

    /// Applies a move, fire or rotate stage to one enemy, then moves its
    /// missiles.
    fn act(&mut self, enemy: &mut Tank, stage: u8, smart_rotate: bool)
        requires
            old(enemy).wf(),
            old(self).wf(),
        ensures
            final(enemy).wf(),
            final(self).tank == old(self).tank,
            final(self).enemies == old(self).enemies,
            final(self).enemy_count == old(self).enemy_count,
            final(self).screen == old(self).screen,
            final(self).score == old(self).score,
            final(self).lives == old(self).lives,
            final(self).step == old(self).step,
            final(self).round == old(self).round,
            final(enemy).origin == old(enemy).origin,
            final(enemy).lives == old(enemy).lives,
            stage_acted(*old(enemy), *final(enemy), stage, smart_rotate, old(self).screen@),
    {
        if stage == STAGE_MOVE {
            let direction = enemy.direction();
            let pos = enemy.pos.move_by(direction);
            if !self.screen.collides(pos.x, pos.y, &enemy.figure) {
                proof {
                    lemma_free_placement_bounded(self.screen@, pos, enemy.figure);
                }
                enemy.move_forward();
            } else {
                enemy.rotate(&Dot::new(0, 0));
            }
        } else if stage == STAGE_FIRE {
            let can_hit = self.can_hit_player(enemy);
            let random_fire = self.prng.next_range(10) == 0;
            if can_hit || random_fire {
                enemy.fire();
            }
        } else if stage == STAGE_ROTATE {
            if smart_rotate {
                let dx: i8 = self.tank.pos.x - enemy.pos.x;
                let dy: i8 = self.tank.pos.y - enemy.pos.y;
                let adx: i8 = if dx < 0 {
                    -dx
                } else {
                    dx
                };
                let ady: i8 = if dy < 0 {
                    -dy
                } else {
                    dy
                };
                let target = if adx > ady {
                    Dot::new(
                        if dx > 0 {
                            1
                        } else {
                            -1
                        },
                        0,
                    )
                } else {
                    Dot::new(
                        0,
                        if dy > 0 {
                            1
                        } else {
                            -1
                        },
                    )
                };
                if enemy.direction() != target {
                    enemy.rotate(&target);
                } else if self.prng.next_range(4) == 0 {
                    enemy.rotate(&Dot::new(0, 0));
                }
            } else {
                enemy.rotate(&Dot::new(0, 0));
            }
        }
        enemy.move_missiles();
    }

    /// One enemy round: a spawn at the first free spawn point, or the
    /// stage applied to every enemy that is not dying.
    pub fn update_enemies(&mut self)
        requires
            old(self).wf(),
        ensures
            final(self).wf(),
            enemies_updated(*old(self), *final(self)),

    {
        let ghost prng0 = self.prng;
        let stage = self.choose_stage();
        if stage == STAGE_SPAWN {
            if self.enemy_count < MAX_ENEMIES {
                let mut idx: usize = 0;
                while idx < 4
                    invariant
                        idx <= 4,
                        self.wf(),
                        self.enemy_count < MAX_ENEMIES,
                        self.enemy_count == old(self).enemy_count,
                        self.tank == old(self).tank,
                        self.score == old(self).score,
                        self.lives == old(self).lives,
                        self.step == old(self).step,
                        self.round == old(self).round,
                        self.enemies == old(self).enemies,
                        self.prng == old(self).prng,
                        old(self).enemy_count <= 1,
                        forall|j: int| 0 <= j < idx ==> #[trigger] origin_taken(old(self).enemies@, j),
                    decreases 4 - idx,
                {
                    if !self.spawn_taken(idx) {
                        let t = Tank::new(spawn_point_exec(idx), idx as i8);
                        self.enemies[self.enemy_count] = t;
                        self.enemy_count = self.enemy_count + 1;
                        return;
                    }
                    idx = idx + 1;
                }
            }
        } else if stage != STAGE_NONE {
            let mut i: usize = 0;
            while i < self.enemy_count
                invariant
                    i <= self.enemy_count,
                    self.wf(),
                    self.enemy_count == old(self).enemy_count,
                    self.tank == old(self).tank,
                    self.score == old(self).score,
                    self.lives == old(self).lives,
                    self.step == old(self).step,
                    self.round == old(self).round,
                    self.screen == old(self).screen,
                    forall|k: int|
                        i <= k < MAX_ENEMIES ==> #[trigger] self.enemies@[k] == old(self).enemies@[k],
                    forall|k: int|
                        0 <= k < i ==> {
                            let e0 = #[trigger] old(self).enemies@[k];
                            let e1 = self.enemies@[k];
                            &&& e0.lives < 0 ==> e1 == e0
                            &&& e0.lives >= 0 ==> e1.origin == e0.origin && e1.lives == e0.lives
                                && stage_acted(e0, e1, stage, false, old(self).screen@)
                        },
                decreases self.enemy_count - i,
            {
                let mut enemy = self.enemies[i];
                if !enemy.is_dying() {
                    self.act(&mut enemy, stage, false);
                    self.enemies[i] = enemy;
                }
                i = i + 1;
            }
        }
    }

    /// Spawns an enemy at a spawn point that no enemy slot came from,
    /// drawn with weight `100 - distance to the player` (Manhattan); the
    /// draw is taken from `[0, total weight mod 256)`.
    fn spawn_weighted(&mut self)
        requires
            old(self).wf(),
            old(self).enemy_count < MAX_ENEMIES,
        ensures
            final(self).wf(),
            final(self).tank == old(self).tank,
            final(self).score == old(self).score,
            final(self).lives == old(self).lives,
            final(self).step == old(self).step,
            final(self).round == old(self).round,
            final(self).enemy_count == old(self).enemy_count || final(self).enemy_count
                == old(self).enemy_count + 1,
            final(self).enemy_count == old(self).enemy_count + 1 ==> {
                let t = final(self).enemies@[old(self).enemy_count as int];
                &&& 0 <= t.origin < 4
                &&& t.pos == spawn_point(t.origin as int)
                &&& t.lives == 1
                &&& forall|i: int|
                    0 <= i < MAX_ENEMIES ==> (#[trigger] old(self).enemies@[i]).origin != t.origin
                &&& final(self).enemies@ == old(self).enemies@.update(old(self).enemy_count as int, t)
            },
            final(self).enemy_count == old(self).enemy_count ==> final(self).enemies == old(self).enemies,
            (exists|j: int| 0 <= j < 4 && !#[trigger] origin_taken(old(self).enemies@, j))
                ==> final(self).enemy_count == old(self).enemy_count + 1,
    {
        let mut slots = [0usize;4];
        let mut weights = [0i32;4];
        let mut count: usize = 0;
        let px = self.tank.pos.x as i32;
        let py = self.tank.pos.y as i32;
        let mut idx: usize = 0;
        while idx < 4
            invariant
                idx <= 4,
                count <= idx,
                -16 <= px <= 8,
                -16 <= py <= 32,
                forall|k: int| 0 <= k < count ==> 1 <= #[trigger] weights@[k] <= 100,
                forall|k: int| 0 <= k < count ==> #[trigger] slots@[k] < 4,
                forall|k: int, i: int|
                    0 <= k < count && 0 <= i < MAX_ENEMIES ==> #[trigger] self.enemies@[i].origin
                        != #[trigger] slots@[k],
                count == 0 ==> forall|j: int| 0 <= j < idx ==> #[trigger] origin_taken(old(self).enemies@, j),
                *self == *old(self),
            decreases 4 - idx,
        {
            if !self.spawn_taken(idx) {
                let spawn = spawn_point_exec(idx);
                let ddx = spawn.x as i32 - px;
                let ddy = spawn.y as i32 - py;
                let distance = (if ddx < 0 {
                    -ddx
                } else {
                    ddx
                }) + (if ddy < 0 {
                    -ddy
                } else {
                    ddy
                });
                slots[count] = idx;
                weights[count] = 100 - distance;
                count = count + 1;
            }
            idx = idx + 1;
        }
        if count == 0 {
            return;
        }
        let mut total: i32 = 0;
        let mut k: usize = 0;
        while k < count
            invariant
                k <= count <= 4,
                k <= total <= 100 * k,
                total == wsum(weights@, k as int),
                forall|j: int| 0 <= j < count ==> 1 <= #[trigger] weights@[j] <= 100,
            decreases count - k,
        {
            total = total + weights[k];
            k = k + 1;
        }
        if total <= 0 {
            return;
        }
        let bound: u8 = #[verifier::truncate] (total as u8);
        let rand_val = self.prng.next_range(bound) as i32;
        assert(rand_val < total) by {
            if total < 256 {
                assert(bound == total);
            }
        }
        let mut current: i32 = 0;
        let mut k: usize = 0;
        while k < count
            invariant
                k <= count <= 4,
                0 <= current <= 100 * k,
                current == wsum(weights@, k as int),
                total == wsum(weights@, count as int),
                0 <= rand_val < total,
                current <= rand_val,
                forall|j: int| 0 <= j < count ==> 1 <= #[trigger] weights@[j] <= 100,
                forall|j: int| 0 <= j < count ==> #[trigger] slots@[j] < 4,
                forall|j: int, i: int|
                    0 <= j < count && 0 <= i < MAX_ENEMIES ==> #[trigger] old(self).enemies@[i].origin
                        != #[trigger] slots@[j],
                self.enemies == old(self).enemies,
                self.wf(),
                self.enemy_count == old(self).enemy_count,
                self.enemy_count < MAX_ENEMIES,
                self.tank == old(self).tank,
                self.score == old(self).score,
                self.lives == old(self).lives,
                self.step == old(self).step,
                self.round == old(self).round,
            decreases count - k,
        {
            current = current + weights[k];
            if rand_val < current {
                let slot = slots[k];
                self.enemies[self.enemy_count] = Tank::new(spawn_point_exec(slot), slot as i8);
                self.enemy_count = self.enemy_count + 1;
                return;
            }
            k = k + 1;
        }
        assert(false);
    }

    /// Picks one enemy that is not dying, weighted by closeness to the
    /// player (up to 20), a shot lined up (15) and a clear line of sight
    /// (10), plus 1, and applies the stage to it.
    fn act_on_chosen(&mut self, stage: u8)
        requires
            old(self).wf(),
        ensures
            final(self).wf(),
            final(self).tank == old(self).tank,
            final(self).score == old(self).score,
            final(self).lives == old(self).lives,
            final(self).step == old(self).step,
            final(self).round == old(self).round,
            final(self).enemy_count == old(self).enemy_count,
            exists|sel: int|
                0 <= sel < MAX_ENEMIES && #[trigger] only_changed_at(
                    old(self).enemies@,
                    final(self).enemies@,
                    sel,
                ) && ((exists|k: int|
                    0 <= k < old(self).enemy_count && (#[trigger] old(self).enemies@[k]).lives
                        >= 0) ==> {
                    &&& sel < old(self).enemy_count
                    &&& old(self).enemies@[sel].lives >= 0
                    &&& final(self).enemies@[sel].origin == old(self).enemies@[sel].origin
                    &&& final(self).enemies@[sel].lives == old(self).enemies@[sel].lives
                    &&& stage_acted(
                        old(self).enemies@[sel],
                        final(self).enemies@[sel],
                        stage,
                        true,
                        old(self).screen@,
                    )
                }),
    {
        let mut slots = [0usize;4];
        let mut weights = [0i32;4];
        let mut count: usize = 0;
        let player_pos = self.tank.pos;
        let mut i: usize = 0;
        while i < self.enemy_count
            invariant
                i <= self.enemy_count <= MAX_ENEMIES,
                count <= i,
                self.wf(),
                self.tank == old(self).tank,
                self.enemies == old(self).enemies,
                self.enemy_count == old(self).enemy_count,
                player_pos == self.tank.pos,
                forall|k: int| 0 <= k < count ==> 1 <= #[trigger] weights@[k] <= 46,
                forall|k: int| 0 <= k < count ==> #[trigger] slots@[k] < self.enemy_count,
                forall|k: int| 0 <= k < count ==> self.enemies@[#[trigger] slots@[k] as int].lives >= 0,
                count == 0 ==> forall|k: int| 0 <= k < i ==> (#[trigger] self.enemies@[k]).lives < 0,
            decreases self.enemy_count - i,
        {
            let enemy = self.enemies[i];
            if !enemy.is_dying() {
                let ddx = enemy.pos.x as i32 - player_pos.x as i32;
                let ddy = enemy.pos.y as i32 - player_pos.y as i32;
                let distance = (if ddx < 0 {
                    -ddx
                } else {
                    ddx
                }) + (if ddy < 0 {
                    -ddy
                } else {
                    ddy
                });
                let mut priority: i32 = 1;
                if 20 - distance > 0 {
                    priority = priority + (20 - distance);
                }
                if self.can_hit_player(&enemy) {
                    priority = priority + 15;
                }
                if self.has_line_of_sight(&enemy, player_pos) {
                    priority = priority + 10;
                }
                slots[count] = i;
                weights[count] = priority;
                count = count + 1;
            }
            i = i + 1;
        }
        if count == 0 {
            assert(only_changed_at(old(self).enemies@, self.enemies@, 0));
            return;
        }
        let mut total: i32 = 0;
        let mut k: usize = 0;
        while k < count
            invariant
                k <= count <= 4,
                0 <= total <= 46 * k,
                forall|j: int| 0 <= j < count ==> 1 <= #[trigger] weights@[j] <= 46,
            decreases count - k,
        {
            total = total + weights[k];
            k = k + 1;
        }
        let mut selected = slots[0];
        if total > 0 {
            let bound: u8 = #[verifier::truncate] (total as u8);
            let rand_val = self.prng.next_range(bound) as i32;
            let mut current: i32 = 0;
            let mut k: usize = 0;
            while k < count
                invariant
                    k <= count <= 4,
                    0 <= current <= 46 * k,
                    forall|j: int| 0 <= j < count ==> 1 <= #[trigger] weights@[j] <= 46,
                    forall|j: int| 0 <= j < count ==> #[trigger] slots@[j] < self.enemy_count,
                    forall|j: int| 0 <= j < count ==> self.enemies@[#[trigger] slots@[j] as int].lives >= 0,
                    self.enemies@[selected as int].lives >= 0,
                    selected < self.enemy_count,
                    self.enemies == old(self).enemies,
                    self.enemy_count == old(self).enemy_count,
                    self.tank == old(self).tank,
                    self.score == old(self).score,
                    self.lives == old(self).lives,
                    self.step == old(self).step,
                    self.round == old(self).round,
                    self.wf(),
                decreases count - k,
            {
                current = current + weights[k];
                if rand_val < current {
                    selected = slots[k];
                    k = count;
                } else {
                    k = k + 1;
                }
            }
        }
        let ghost screen0 = self.screen@;
        let mut enemy = self.enemies[selected];
        self.act(&mut enemy, stage, true);
        self.enemies[selected] = enemy;
        assert(only_changed_at(old(self).enemies@, self.enemies@, selected as int));
    }

    /// Removes the enemies without lives, each replaced by the last one.
    pub fn remove_dead(&mut self)
        requires
            old(self).wf(),
        ensures
            final(self).wf(),
            final(self).tank == old(self).tank,
            final(self).score == old(self).score,
            final(self).lives == old(self).lives,
            final(self).step == old(self).step,
            final(self).round == old(self).round,
            final(self).enemy_count <= old(self).enemy_count,
            kept_living(old(self).enemies@, old(self).enemy_count as int, final(self).enemies@, final(self).enemy_count as int),
            (forall|k: int| 0 <= k < old(self).enemy_count ==> (#[trigger] old(self).enemies@[k]).lives > 0)
                ==> final(self).enemies == old(self).enemies && final(self).enemy_count == old(
                self,
            ).enemy_count,
    {
        let mut i: usize = 0;
        while i < self.enemy_count
            invariant
                (forall|k: int| 0 <= k < old(self).enemy_count ==> (#[trigger] old(self).enemies@[k]).lives > 0)
                    ==> self.enemies == old(self).enemies && self.enemy_count == old(self).enemy_count,
                i <= self.enemy_count <= old(self).enemy_count,
                self.wf(),
                self.tank == old(self).tank,
                self.score == old(self).score,
                self.lives == old(self).lives,
                self.step == old(self).step,
                self.round == old(self).round,
                forall|k: int| 0 <= k < i ==> #[trigger] self.enemies@[k].lives > 0,
                forall|k: int|
                    0 <= k < self.enemy_count ==> #[trigger] is_one_of(
                        old(self).enemies@,
                        old(self).enemy_count as int,
                        self.enemies@[k],
                    ),
                forall|j: int|
                    0 <= j < old(self).enemy_count && (#[trigger] old(self).enemies@[j]).lives > 0
                        ==> is_one_of(self.enemies@, self.enemy_count as int, old(self).enemies@[j]),
            decreases self.enemy_count + self.enemy_count - i,
        {
            if self.enemies[i].is_dead() {
                let ghost before = self.enemies@;
                let ghost n = self.enemy_count as int;
                self.enemies[i] = self.enemies[self.enemy_count - 1];
                self.enemy_count = self.enemy_count - 1;
                proof {
                    assert forall|j: int|
                        0 <= j < old(self).enemy_count && (#[trigger] old(self).enemies@[j]).lives
                            > 0 implies is_one_of(self.enemies@, self.enemy_count as int, old(self).enemies@[j]) by {
                        let t = old(self).enemies@[j];
                        let k = choose|k: int| 0 <= k < n && before[k] == t;
                        if k == n - 1 {
                            assert(self.enemies@[i as int] == t);
                        } else {
                            assert(k != i);
                            assert(self.enemies@[k] == t);
                        }
                    }
                    assert forall|k: int| 0 <= k < self.enemy_count implies #[trigger] is_one_of(
                        old(self).enemies@,
                        old(self).enemy_count as int,
                        self.enemies@[k],
                    ) by {
                        if k == i {
                            assert(self.enemies@[k] == before[n - 1]);
                        } else {
                            assert(self.enemies@[k] == before[k]);
                        }
                    }
                }
            } else {
                i = i + 1;
            }
        }
    }

    /// One AI round: a weighted spawn while fewer than two enemies are on
    /// the field, else the weighted stage applied to one chosen enemy; then
    /// the enemies without lives are removed.
    #[verifier::rlimit(100)]
    pub fn ai(&mut self)
        requires
            old(self).wf(),
        ensures
            final(self).wf(),
            ai_round(*old(self), *final(self)),
            final(self).tank == old(self).tank,
            final(self).score == old(self).score,
            final(self).lives == old(self).lives,
            final(self).step == old(self).step,
            final(self).round == old(self).round,

    {
        let stage = self.choose_stage();
        if stage == STAGE_SPAWN {
            if self.enemy_count < MAX_ENEMIES {
                self.spawn_weighted();
            }
        } else if stage != STAGE_NONE {
            self.act_on_chosen(stage);
        }
        let ghost mid = *self;
        proof {
            if old(self).enemy_count > 1 && stage == STAGE_NONE {
                assert(only_changed_at(old(self).enemies@, mid.enemies@, 0));
            }
            if old(self).enemy_count <= 1 && mid.enemy_count == old(self).enemy_count {
                assert(mid.enemies == old(self).enemies);
            }
        }
        self.remove_dead();
        proof {
            reveal(ai_round);
            assert(kept_living(mid.enemies@, mid.enemy_count as int, self.enemies@, self.enemy_count as int));
            assert forall|i: int, j: int|
                0 <= i < self.enemy_count && 0 <= j < self.enemy_count && i != j implies #[trigger] self.enemies@[i]
                    != #[trigger] self.enemies@[j] by {
                assert(self.enemies@[i].origin != self.enemies@[j].origin);
            }
            if old(self).enemy_count > 1 && stage == STAGE_NONE && (forall|k: int|
                0 <= k < old(self).enemy_count ==> (#[trigger] old(self).enemies@[k]).lives > 0) {
                assert(mid.enemies == old(self).enemies);
                assert forall|k: int| 0 <= k < mid.enemy_count implies (#[trigger] mid.enemies@[k]).lives > 0 by {
                    assert(mid.enemies@[k] == old(self).enemies@[k]);
                }
            }
            assert({
                &&& kept_living(mid.enemies@, mid.enemy_count as int, self.enemies@, self.enemy_count as int)
                &&& (forall|k: int| 0 <= k < mid.enemy_count ==> (#[trigger] mid.enemies@[k]).lives > 0)
                    ==> self.enemies == mid.enemies && self.enemy_count == mid.enemy_count
            });
        }
    }

    /// Enemy missiles inside the player's box take a life from the player
    /// each and are spent.
    pub fn hit_player(&mut self)
        requires
            old(self).wf(),
        ensures
            final(self).wf(),
            final(self).enemy_count == old(self).enemy_count,
            final(self).tank.pos == old(self).tank.pos,
            final(self).tank.missiles == old(self).tank.missiles,
            final(self).score == old(self).score,
            final(self).lives == old(self).lives,
            final(self).step == old(self).step,
            final(self).round == old(self).round,
            final(self).tank.lives <= old(self).tank.lives,
            old(self).tank.lives >= -60 ==> final(self).tank.lives == old(self).tank.lives
                - player_hits(old(self).enemies@, old(self).tank.pos, old(self).enemy_count * 8),
            forall|i: int|
                0 <= i < MAX_ENEMIES ==> {
                    let e0 = #[trigger] old(self).enemies@[i];
                    let e1 = final(self).enemies@[i];
                    &&& e1.pos == e0.pos && e1.lives == e0.lives && e1.rotation == e0.rotation
                        && e1.figure == e0.figure && e1.origin == e0.origin
                    &&& forall|k: int|
                        0 <= k < MISSILES ==> #[trigger] e1.missiles@[k] == if i < old(self).enemy_count && hits_box(e0.missiles@[k], old(self).tank.pos) {
                            Missile { x: -1i8, y: -1i8, dx: e0.missiles@[k].dx, dy: e0.missiles@[k].dy }
                        } else {
                            e0.missiles@[k]
                        }
                },
    {
        let ghost lives0 = self.tank.lives;
        let ghost pos = self.tank.pos;
        let mut i: usize = 0;
        while i < self.enemy_count
            invariant
                i <= self.enemy_count <= MAX_ENEMIES,
                self.wf(),
                self.enemy_count == old(self).enemy_count,
                self.tank.pos == pos,
                pos == old(self).tank.pos,
                lives0 == old(self).tank.lives,
                self.tank.missiles == old(self).tank.missiles,
                self.tank.lives <= lives0,
                self.score == old(self).score,
                self.lives == old(self).lives,
                self.step == old(self).step,
                self.round == old(self).round,
                lives0 >= -60 ==> self.tank.lives == lives0 - player_hits(old(self).enemies@, pos, i * 8),
                forall|e: int| i <= e < MAX_ENEMIES ==> #[trigger] self.enemies@[e] == old(self).enemies@[e],
                forall|e: int|
                    0 <= e < i ==> {
                        let e0 = #[trigger] old(self).enemies@[e];
                        let e1 = self.enemies@[e];
                        &&& e1.pos == e0.pos && e1.lives == e0.lives && e1.rotation == e0.rotation
                            && e1.figure == e0.figure && e1.origin == e0.origin
                        &&& forall|k: int|
                            0 <= k < MISSILES ==> #[trigger] e1.missiles@[k] == if hits_box(
                                e0.missiles@[k],
                                pos,
                            ) {
                                Missile { x: -1i8, y: -1i8, dx: e0.missiles@[k].dx, dy: e0.missiles@[k].dy }
                            } else {
                                e0.missiles@[k]
                            }
                    },
            decreases self.enemy_count - i,
        {
            let mut enemy = self.enemies[i];
            let ghost at_start = self.enemies;
            let mut k: usize = 0;
            while k < MISSILES
                invariant
                    k <= MISSILES,
                    i < self.enemy_count <= MAX_ENEMIES,
                    self.wf(),
                    enemy.wf(),
                    self.enemies == at_start,
                    enemy.pos == old(self).enemies@[i as int].pos,
                    enemy.lives == old(self).enemies@[i as int].lives,
                    enemy.rotation == old(self).enemies@[i as int].rotation,
                    enemy.figure == old(self).enemies@[i as int].figure,
                    enemy.origin == old(self).enemies@[i as int].origin,
                    self.enemy_count == old(self).enemy_count,
                    self.tank.pos == pos,
                    self.tank.missiles == old(self).tank.missiles,
                    self.tank.lives <= lives0,
                    self.score == old(self).score,
                    self.lives == old(self).lives,
                    self.step == old(self).step,
                    self.round == old(self).round,
                    lives0 >= -60 ==> self.tank.lives == lives0 - player_hits(
                        old(self).enemies@,
                        pos,
                        i * 8 + k,
                    ),
                    forall|e: int| i <= e < MAX_ENEMIES ==> #[trigger] self.enemies@[e] == old(self).enemies@[e],
                    forall|j: int| k <= j < MISSILES ==> #[trigger] enemy.missiles@[j] == old(self).enemies@[i as int].missiles@[j],
                    forall|j: int|
                        0 <= j < k ==> #[trigger] enemy.missiles@[j] == if hits_box(
                            old(self).enemies@[i as int].missiles@[j],
                            pos,
                        ) {
                            Missile {
                                x: -1i8,
                                y: -1i8,
                                dx: old(self).enemies@[i as int].missiles@[j].dx,
                                dy: old(self).enemies@[i as int].missiles@[j].dy,
                            }
                        } else {
                            old(self).enemies@[i as int].missiles@[j]
                        },
                decreases MISSILES - k,
            {
                let mut m = enemy.missiles[k];
                proof {
                    let f = i * 8 + k;
                    vstd::arithmetic::div_mod::lemma_fundamental_div_mod_converse(f as int, 8, i as int, k as int);
                    lemma_player_hits_bound(old(self).enemies@, pos, f as int);
                    assert(player_hits(old(self).enemies@, pos, f + 1) == player_hits(
                        old(self).enemies@,
                        pos,
                        f as int,
                    ) + if hits_box(m, pos) {
                        1int
                    } else {
                        0
                    });
                }
                if m.visible() && self.tank.collides(Dot::new(m.x, m.y)) {
                    self.tank.hit();
                    m.retire();
                    enemy.missiles[k] = m;
                }
                k = k + 1;
            }
            let ghost before = self.enemies@;
            self.enemies[i] = enemy;
            proof {
                assert forall|e: int| 0 <= e < i + 1 implies {
                    let e0 = #[trigger] old(self).enemies@[e];
                    let e1 = self.enemies@[e];
                    &&& e1.pos == e0.pos && e1.lives == e0.lives && e1.rotation == e0.rotation
                        && e1.figure == e0.figure && e1.origin == e0.origin
                    &&& forall|k: int|
                        0 <= k < MISSILES ==> #[trigger] e1.missiles@[k] == if hits_box(
                            e0.missiles@[k],
                            pos,
                        ) {
                            Missile { x: -1i8, y: -1i8, dx: e0.missiles@[k].dx, dy: e0.missiles@[k].dy }
                        } else {
                            e0.missiles@[k]
                        }
                } by {
                    if e < i {
                        assert(self.enemies@[e] == before[e]);
                    } else {
                        assert(self.enemies@[e] == enemy);
                        assert(enemy.pos == old(self).enemies@[e].pos);
                        assert forall|k: int| 0 <= k < MISSILES implies #[trigger] enemy.missiles@[k]
                            == if hits_box(old(self).enemies@[e].missiles@[k], pos) {
                            Missile {
                                x: -1i8,
                                y: -1i8,
                                dx: old(self).enemies@[e].missiles@[k].dx,
                                dy: old(self).enemies@[e].missiles@[k].dy,
                            }
                        } else {
                            old(self).enemies@[e].missiles@[k]
                        } by {}
                    }
                }
            }
            i = i + 1;
        }
    }

    /// Each player missile in flight hits the first enemy (in slot order)
    /// whose box holds it: that enemy loses a life, each hit that leaves it
    /// without lives scores 100 (the score stops at the largest `u32`), and
    /// the missile is spent.
    pub fn hit_enemies(&mut self)
        requires
            old(self).wf(),
        ensures
            final(self).wf(),
            final(self).enemy_count == old(self).enemy_count,
            final(self).tank.pos == old(self).tank.pos,
            final(self).tank.lives == old(self).tank.lives,
            final(self).score >= old(self).score,
            final(self).lives == old(self).lives,
            final(self).step == old(self).step,
            final(self).round == old(self).round,
            forall|k: int|
                0 <= k < MISSILES ==> {
                    let m = #[trigger] old(self).tank.missiles@[k];
                    final(self).tank.missiles@[k] == if missile_visible(m) && exists|j: int|
                        0 <= j < old(self).enemy_count && hits_box(m, old(self).enemies@[j].pos) {
                        Missile { x: -1i8, y: -1i8, dx: m.dx, dy: m.dy }
                    } else {
                        m
                    }
                },
            forall|j: int|
                0 <= j < MAX_ENEMIES ==> {
                    let e0 = #[trigger] old(self).enemies@[j];
                    let e1 = final(self).enemies@[j];
                    &&& e1.pos == e0.pos && e1.missiles == e0.missiles && e1.origin == e0.origin
                        && e1.rotation == e0.rotation && e1.figure == e0.figure
                    &&& e1.lives <= e0.lives
                    &&& j >= old(self).enemy_count ==> e1.lives == e0.lives
                },
            lives_above(old(self).enemies@, old(self).enemy_count as int, -90) ==> {
                &&& forall|j: int|
                    0 <= j < old(self).enemy_count ==> (#[trigger] final(self).enemies@[j]).lives
                        == old(self).enemies@[j].lives - hits_on(
                        old(self).tank.missiles@,
                        MISSILES as int,
                        old(self).enemies@,
                        old(self).enemy_count as int,
                        j,
                    )
                &&& final(self).score == sat_u32(
                    old(self).score + 100 * kill_sum(
                        old(self).tank.missiles@,
                        MISSILES as int,
                        old(self).enemies@,
                        old(self).enemy_count as int,
                        old(self).enemy_count as int,
                    ),
                )
            },
    {
        let ghost ms0 = self.tank.missiles@;
        let ghost es0 = self.enemies@;
        let ghost n = self.enemy_count as int;
        let ghost ok = lives_above(es0, n, -90);
        let ghost mut kc: int = 0;
        proof {
            lemma_kill_sum_start(ms0, es0, n, n);
        }
        let mut k: usize = 0;
        while k < MISSILES
            invariant
                k <= MISSILES,
                ms0 == old(self).tank.missiles@,
                es0 == old(self).enemies@,
                n == old(self).enemy_count,
                ok == lives_above(es0, n, -90),
                self.wf(),
                self.enemy_count == old(self).enemy_count,
                self.tank.pos == old(self).tank.pos,
                self.tank.lives == old(self).tank.lives,
                self.lives == old(self).lives,
                self.step == old(self).step,
                self.round == old(self).round,
                0 <= kc,
                self.score == sat_u32(old(self).score + 100 * kc),
                ok ==> kc == kill_sum(ms0, k as int, es0, n, n),
                forall|kk: int| k <= kk < MISSILES ==> #[trigger] self.tank.missiles@[kk] == old(self).tank.missiles@[kk],
                forall|kk: int|
                    0 <= kk < k ==> {
                        let m = #[trigger] old(self).tank.missiles@[kk];
                        self.tank.missiles@[kk] == if missile_visible(m) && exists|j: int|
                            0 <= j < old(self).enemy_count && hits_box(m, old(self).enemies@[j].pos) {
                            Missile { x: -1i8, y: -1i8, dx: m.dx, dy: m.dy }
                        } else {
                            m
                        }
                    },
                forall|j: int|
                    0 <= j < MAX_ENEMIES ==> {
                        let e0 = #[trigger] old(self).enemies@[j];
                        let e1 = self.enemies@[j];
                        &&& e1.pos == e0.pos && e1.missiles == e0.missiles && e1.origin == e0.origin
                            && e1.rotation == e0.rotation && e1.figure == e0.figure
                        &&& e1.lives <= e0.lives
                        &&& j >= n ==> e1.lives == e0.lives
                        &&& ok && j < n ==> e1.lives == e0.lives - hits_on(ms0, k as int, es0, n, j)
                    },
            decreases MISSILES - k,
        {
            let m0 = self.tank.missiles[k];
            let mut m = m0;
            let ghost kc0 = kc;
            let mut j: usize = 0;
            while j < self.enemy_count
                invariant
                    j <= self.enemy_count <= MAX_ENEMIES,
                    k < MISSILES,
                    ms0 == old(self).tank.missiles@,
                    es0 == old(self).enemies@,
                    n == old(self).enemy_count,
                    ok == lives_above(es0, n, -90),
                    self.wf(),
                    m.wf(),
                    m0 == ms0[k as int],
                    m.dx == m0.dx && m.dy == m0.dy,
                    (exists|jj: int| 0 <= jj < j && hits_box(m0, es0[jj].pos)) == (exists|jj: int|
                        0 <= jj < j && #[trigger] first_hit(m0, es0, n, jj)),
                    (exists|jj: int| 0 <= jj < j && hits_box(m0, es0[jj].pos)) ==> m.x == -1 && m.y
                        == -1,
                    !(exists|jj: int| 0 <= jj < j && hits_box(m0, es0[jj].pos)) ==> m == m0,
                    self.enemy_count == old(self).enemy_count,
                    self.tank.pos == old(self).tank.pos,
                    self.tank.lives == old(self).tank.lives,
                    self.lives == old(self).lives,
                    self.step == old(self).step,
                    self.round == old(self).round,
                    0 <= kc,
                    self.score == sat_u32(old(self).score + 100 * kc),
                    ok ==> kc0 == kill_sum(ms0, k as int, es0, n, n),
                    ok ==> kc == kill_sum(ms0, k + 1, es0, n, j as int) + (kc0 - kill_sum(
                        ms0,
                        k as int,
                        es0,
                        n,
                        j as int,
                    )),
                    forall|kk: int| k <= kk < MISSILES ==> #[trigger] self.tank.missiles@[kk] == old(self).tank.missiles@[kk],
                    forall|kk: int|
                        0 <= kk < k ==> {
                            let mm = #[trigger] old(self).tank.missiles@[kk];
                            self.tank.missiles@[kk] == if missile_visible(mm) && exists|jj: int|
                                0 <= jj < old(self).enemy_count && hits_box(mm, old(self).enemies@[jj].pos) {
                                Missile { x: -1i8, y: -1i8, dx: mm.dx, dy: mm.dy }
                            } else {
                                mm
                            }
                        },
                    forall|jj: int|
                        0 <= jj < MAX_ENEMIES ==> {
                            let e0 = #[trigger] old(self).enemies@[jj];
                            let e1 = self.enemies@[jj];
                            &&& e1.pos == e0.pos && e1.missiles == e0.missiles && e1.origin
                                == e0.origin && e1.rotation == e0.rotation && e1.figure == e0.figure
                            &&& e1.lives <= e0.lives
                            &&& jj >= n ==> e1.lives == e0.lives
                            &&& ok && jj < j ==> e1.lives == e0.lives - hits_on(ms0, k + 1, es0, n, jj)
                            &&& ok && j <= jj < n ==> e1.lives == e0.lives - hits_on(ms0, k as int, es0, n, jj)
                        },
                decreases self.enemy_count - j,
            {
                let mut enemy = self.enemies[j];
                proof {
                    let jj = j as int;
                    assert(enemy.pos == es0[jj].pos);
                    lemma_hits_on_bound(ms0, k as int, es0, n, jj);
                    assert(hits_on(ms0, k + 1, es0, n, jj) == hits_on(ms0, k as int, es0, n, jj)
                        + if first_hit(m0, es0, n, jj) { 1int } else { 0 });
                    assert(kill_sum(ms0, k + 1, es0, n, jj + 1) == kill_sum(ms0, k + 1, es0, n, jj)
                        + kills(es0[jj].lives as int, hits_on(ms0, k + 1, es0, n, jj)));
                    assert(kill_sum(ms0, k as int, es0, n, jj + 1) == kill_sum(ms0, k as int, es0, n, jj)
                        + kills(es0[jj].lives as int, hits_on(ms0, k as int, es0, n, jj)));
                    if !(exists|i: int| 0 <= i < jj && hits_box(m0, es0[i].pos)) {
                        assert forall|i: int| 0 <= i < jj implies !#[trigger] hits_box(m0, es0[i].pos) by {}
                    }
                    if ok {
                        assert(es0[jj].lives >= -90);
                    }
                }
                let ghost lv = enemy.lives as int;
                if m.visible() && enemy.collides(Dot::new(m.x, m.y)) {
                    enemy.hit();
                    m.retire();
                    if enemy.is_dead() {
                        self.score = self.score.saturating_add(100);
                        proof {
                            kc = kc + 1;
                        }
                    }
                }
                proof {
                    let jj = j as int;
                    lemma_kills_step(es0[jj].lives as int, hits_on(ms0, k as int, es0, n, jj));
                    if hits_box(m0, es0[jj].pos) && m == m0 {
                        assert(m.x == -1);
                    }
                }
                self.enemies[j] = enemy;
                j = j + 1;
            }
            proof {
                if !(exists|jj: int| 0 <= jj < n && hits_box(m0, es0[jj].pos)) {
                    assert(m == m0);
                }
            }
            self.tank.missiles[k] = m;
            k = k + 1;
        }
    }

    /// Enemy missiles hit the player first, then the player's missiles hit
    /// the enemies (see `hit_player` and `hit_enemies`).
    pub fn check_collisions(&mut self)
        requires
            old(self).wf(),
        ensures
            final(self).wf(),
            collisions_resolved(*old(self), *final(self)),

    {
        self.hit_player();
        let ghost mid = *self;
        self.hit_enemies();
    }

    /// Draws enemy `idx` in the player's colour when the player tank is
    /// the player's (as it always is), else red.
    pub fn draw_enemy_tank(&mut self, idx: usize)
        requires
            idx < MAX_ENEMIES,
        ensures
            final(self).screen@ == drawn(
                old(self).screen@,
                old(self).enemies@[idx as int].pos.x as int,
                old(self).enemies@[idx as int].pos.y as int,
                old(self).enemies@[idx as int].figure,
                if old(self).tank.origin == -1 {
                    GREEN_IDX
                } else {
                    RED_IDX
                },
            ),
            final(self).tank == old(self).tank,
            final(self).enemies == old(self).enemies,
            final(self).enemy_count == old(self).enemy_count,
            final(self).score == old(self).score,
            final(self).lives == old(self).lives,
            final(self).prng == old(self).prng,
            final(self).step == old(self).step,
            final(self).round == old(self).round,
    {
        let color = if self.tank.player() {
            GREEN_IDX
        } else {
            RED_IDX
        };
        let e = self.enemies[idx];
        self.screen.draw_figure(e.pos.x, e.pos.y, &e.figure, color);
    }

    pub fn draw_enemy_missiles(&mut self, idx: usize)
        requires
            idx < MAX_ENEMIES,
            old(self).wf(),
        ensures
            missiles_painted(old(self).screen@, final(self).screen@, old(self).enemies@[idx as int].missiles@),
            final(self).tank == old(self).tank,
            final(self).enemies == old(self).enemies,
            final(self).enemy_count == old(self).enemy_count,
            final(self).score == old(self).score,
            final(self).lives == old(self).lives,
            final(self).prng == old(self).prng,
            final(self).step == old(self).step,
            final(self).round == old(self).round,
    {
        paint_missiles(&mut self.screen, &self.enemies[idx].missiles);
    }

    pub fn draw_tank(&mut self)
        ensures
            final(self).screen@ == drawn(
                old(self).screen@,
                old(self).tank.pos.x as int,
                old(self).tank.pos.y as int,
                old(self).tank.figure,
                if old(self).tank.origin == -1 {
                    GREEN_IDX
                } else {
                    RED_IDX
                },
            ),
            final(self).tank == old(self).tank,
            final(self).enemies == old(self).enemies,
            final(self).enemy_count == old(self).enemy_count,
            final(self).score == old(self).score,
            final(self).lives == old(self).lives,
            final(self).prng == old(self).prng,
            final(self).step == old(self).step,
            final(self).round == old(self).round,
    {
        let color = if self.tank.player() {
            GREEN_IDX
        } else {
            RED_IDX
        };
        self.screen.draw_figure(self.tank.pos.x, self.tank.pos.y, &self.tank.figure, color);
    }

    pub fn draw_missiles(&mut self)
        ensures
            missiles_painted(old(self).screen@, final(self).screen@, old(self).tank.missiles@),
            final(self).tank == old(self).tank,
            final(self).enemies == old(self).enemies,
            final(self).enemy_count == old(self).enemy_count,
            final(self).score == old(self).score,
            final(self).lives == old(self).lives,
            final(self).prng == old(self).prng,
            final(self).step == old(self).step,
            final(self).round == old(self).round,
    {
        paint_missiles(&mut self.screen, &self.tank.missiles);
    }

    /// Draws the score's last (up to four) decimal digits from column 0,
    /// four columns apart, most significant first; nothing for 0.
    pub fn draw_score(&mut self)
        ensures
            final(self).screen@.len() == old(self).screen@.len(),
            forall|i: int|
                5 * 8 <= i < old(self).screen@.len() ==> #[trigger] final(self).screen@[i] == old(self).screen@[i],
            final(self).tank == old(self).tank,
            final(self).enemies == old(self).enemies,
            final(self).enemy_count == old(self).enemy_count,
            final(self).score == old(self).score,
            final(self).lives == old(self).lives,
            final(self).prng == old(self).prng,
            final(self).step == old(self).step,
            final(self).round == old(self).round,
    {
        paint_number(&mut self.screen, self.score);
    }

    /// One green dot per remaining life on the top row.
    pub fn draw_lives(&mut self)
        requires
            0 <= old(self).lives <= 3,
        ensures
            final(self).screen@.len() == old(self).screen@.len(),
            forall|i: int|
                0 <= i < old(self).screen@.len() ==> #[trigger] final(self).screen@[i] == if i
                    < old(self).lives {
                    GREEN_IDX
                } else {
                    old(self).screen@[i]
                },
            final(self).tank == old(self).tank,
            final(self).enemies == old(self).enemies,
            final(self).enemy_count == old(self).enemy_count,
            final(self).score == old(self).score,
            final(self).lives == old(self).lives,
            final(self).prng == old(self).prng,
            final(self).step == old(self).step,
            final(self).round == old(self).round,
    {
        proof {
            self.screen.lemma_len();
        }
        let mut i: i8 = 0;
        while i < self.lives
            invariant
                0 <= i <= self.lives <= 3,
                self.tank == old(self).tank,
                self.enemies == old(self).enemies,
                self.enemy_count == old(self).enemy_count,
                self.score == old(self).score,
                self.lives == old(self).lives,
                self.prng == old(self).prng,
                self.step == old(self).step,
                self.round == old(self).round,
                self.screen@.len() == old(self).screen@.len(),
                old(self).screen@.len() == 256,
                forall|k: int|
                    0 <= k < old(self).screen@.len() ==> #[trigger] self.screen@[k] == if k < i {
                        GREEN_IDX
                    } else {
                        old(self).screen@[k]
                    },
            decreases self.lives - i,
        {
            self.screen.set(i as usize, 0, GREEN_IDX);
            i = i + 1;
        }
    }

    /// One frame of play: returns `false` (game over) when the player's
    /// tank has no lives left; else fires on a button press, moves the
    /// player (backing up allowed), moves all missiles, runs the enemies'
    /// round, resolves hits, redraws, and every `round - score / 10`
    /// frames runs an AI round (each one lengthening the next).
    pub fn tick(&mut self, pressed: bool, x_input: i8, y_input: i8) -> (alive: bool)
        requires
            old(self).wf(),
        ensures
            final(self).wf(),
            alive == (old(self).tank.lives > 0),
            !alive ==> final(self).tank == old(self).tank && final(self).enemies == old(self).enemies,
            alive ==> exists|s1: TanksGame, s2: TanksGame, s3: TanksGame, s3d: TanksGame, s4: TanksGame|
                #[trigger] tank_tick(*old(self), s1, s2, s3, s3d, s4, *final(self), x_input, y_input),
    {
        self.screen.clear();
        if self.tank.is_dead() {
            return false;
        }
        if pressed {
            self.tank.fire();
        }
        let direction = Dot::new(x_input, y_input).to_direction();
        let ghost snap0 = *self;
        let mut i: usize = 0;
        while i < self.enemy_count
            invariant
                i <= self.enemy_count <= MAX_ENEMIES,
                self.wf(),
                self.tank == snap0.tank,
                self.enemies == snap0.enemies,
                self.enemy_count == snap0.enemy_count,
                self.score == snap0.score,
                self.lives == snap0.lives,
                self.prng == snap0.prng,
                self.step == snap0.step,
                self.round == snap0.round,
                self.tank.lives > 0,
            decreases self.enemy_count - i,
        {
            self.draw_enemy_tank(i);
            i = i + 1;
        }
        let fig = self.tank.figure;
        proof {
            lemma_step_is_heading(direction);
        }
        self.tank.move_(&direction, &self.screen, &fig, true);
        self.tank.move_missiles();
        let ghost s1 = *self;
        self.update_enemies();
        let ghost s2 = *self;
        self.check_collisions();
        let ghost s3 = *self;
        self.draw_tank();
        let ghost snap1 = *self;
        let mut i: usize = 0;
        while i < self.enemy_count
            invariant
                i <= self.enemy_count <= MAX_ENEMIES,
                self.wf(),
                self.tank == snap1.tank,
                self.enemies == snap1.enemies,
                self.enemy_count == snap1.enemy_count,
                self.score == snap1.score,
                self.lives == snap1.lives,
                self.prng == snap1.prng,
                self.step == snap1.step,
                self.round == snap1.round,
            decreases self.enemy_count - i,
        {
            self.draw_enemy_tank(i);
            self.draw_enemy_missiles(i);
            i = i + 1;
        }
        self.draw_missiles();
        self.draw_score();
        self.draw_lives();
        let speedup = self.score / 10;
        if self.step >= self.round.saturating_sub(speedup) {
            let ghost pre_ai = *self;
            self.ai();
            let ghost s4 = *self;
            proof {
                assert(ai_round(pre_ai, s4));
            }
            self.step = 0;
            self.round = self.round.saturating_add(1);
            self.step = self.step.saturating_add(1);
            assert(tank_tick(*old(self), s1, s2, s3, pre_ai, s4, *self, x_input, y_input));
        } else {
            self.step = self.step.saturating_add(1);
            assert(tank_tick(*old(self), s1, s2, s3, s3, s3, *self, x_input, y_input));
        }
        true
    }

    /// One frame of the game-over splash: a random cell in a random colour.
    pub fn game_over_frame(&mut self)
        requires
            old(self).wf(),
        ensures
            final(self).wf(),
            final(self).tank == old(self).tank,
            final(self).score == old(self).score,
            final(self).enemies == old(self).enemies,
            final(self).enemy_count == old(self).enemy_count,
            ({
                let s1 = lcg_step(old(self).prng@);
                let s2 = lcg_step(s1);
                let s3 = lcg_step(s2);
                &&& final(self).prng@ == s3
                &&& final(self).screen@ == old(self).screen@.update(
                    cell_index(lcg_output(s1) as int % 8, lcg_output(s2) as int % 32),
                    (lcg_output(s3) as int % 10) as u8,
                )
            }),
    {
        proof {
            self.screen.lemma_len();
        }
        let x = self.prng.next_range(SCREEN_WIDTH as u8);
        let y = self.prng.next_range(SCREEN_HEIGHT as u8);
        let color = self.prng.next_range(crate::common::COLORS_LEN);
        self.screen.set(x as usize, y as usize, color);
    }

    /// Whether `tank` should fire: when it has the player lined up, else
    /// with one chance in ten.
    pub fn should_fire(&mut self, tank: &Tank) -> (r: bool)
        requires
            tank.wf(),
            old(self).tank.wf(),
        ensures
            can_hit(*tank, old(self).tank) ==> r && final(self).prng == old(self).prng,
            !can_hit(*tank, old(self).tank) ==> final(self).prng@ == crate::common::lcg_step(
                old(self).prng@,
            ) && r == (crate::common::lcg_output(final(self).prng@) % 10 == 0),
            final(self).tank == old(self).tank,
            final(self).enemies == old(self).enemies,
            final(self).enemy_count == old(self).enemy_count,
    {
        if self.can_hit_player(tank) {
            return true;
        }
        self.prng.next_range(10) == 0
    }

    /// Moves `tank` toward the player: along the axis of the larger
    /// distance first, then the other, taking the first of these whose
    /// cell is free (backing up allowed); with neither free it goes on
    /// along its heading. Collisions are tested with the upright tank
    /// sprite.
    pub fn smart_move(&self, tank: &mut Tank)
        requires
            old(tank).wf(),
            self.tank.wf(),
        ensures
            final(tank).wf(),
            final(tank).lives == old(tank).lives,
            final(tank).origin == old(tank).origin,
            final(tank).missiles == old(tank).missiles,
            abs(final(tank).pos.x - old(tank).pos.x) + abs(final(tank).pos.y - old(tank).pos.y)
                <= 1,
            ({
                let t0 = *old(tank);
                let prefs = preferred_dirs(
                    self.tank.pos.x - t0.pos.x,
                    self.tank.pos.y - t0.pos.y,
                );
                if step_free(t0, prefs[0], self.screen@) {
                    move_effect(t0, *final(tank), prefs[0], self.screen@, upright_tank(), true)
                } else if prefs.len() > 1 && step_free(t0, prefs[1], self.screen@) {
                    move_effect(t0, *final(tank), prefs[1], self.screen@, upright_tank(), true)
                } else {
                    move_effect(t0, *final(tank), t0.dir(), self.screen@, upright_tank(), false)
                }
            }),
    {
        let player_pos = self.tank.pos;
        let dx: i8 = player_pos.x - tank.pos.x;
        let dy: i8 = player_pos.y - tank.pos.y;
        let adx: i8 = if dx < 0 {
            -dx
        } else {
            dx
        };
        let ady: i8 = if dy < 0 {
            -dy
        } else {
            dy
        };
        let mut preferred = [Dot::new(0, 0);4];
        let mut count: usize = 0;
        if adx > ady {
            preferred[count] = if dx > 0 {
                Dot::new(1, 0)
            } else {
                Dot::new(-1, 0)
            };
            count = count + 1;
            if dy > 0 {
                preferred[count] = Dot::new(0, 1);
                count = count + 1;
            } else if dy < 0 {
                preferred[count] = Dot::new(0, -1);
                count = count + 1;
            }
        } else {
            preferred[count] = if dy > 0 {
                Dot::new(0, 1)
            } else {
                Dot::new(0, -1)
            };
            count = count + 1;
            if dx > 0 {
                preferred[count] = Dot::new(1, 0);
                count = count + 1;
            } else if dx < 0 {
                preferred[count] = Dot::new(-1, 0);
                count = count + 1;
            }
        }
        let upright = tank_figure();
        proof {
            lemma_tank_pixel(upright);
            assert(upright.wh == 51);
            assert(upright == upright_tank());
            let prefs = preferred_dirs(player_pos.x - tank.pos.x, player_pos.y - tank.pos.y);
            assert(prefs.len() == count);
            assert(forall|k: int| 0 <= k < count ==> preferred@[k] == prefs[k]);
        }
        let mut i: usize = 0;
        while i < count
            invariant
                i <= count <= 2,
                *tank == *old(tank),
                old(tank).wf(),
                upright == upright_tank(),
                player_pos == self.tank.pos,
                ({
                    let prefs = preferred_dirs(player_pos.x - tank.pos.x, player_pos.y - tank.pos.y);
                    &&& prefs.len() == count
                    &&& forall|k: int| 0 <= k < count ==> preferred@[k] == prefs[k]
                    &&& forall|k: int| 0 <= k < i ==> !step_free(*tank, prefs[k], self.screen@)
                }),
                forall|k: int|
                    0 <= k < count ==> -1 <= (#[trigger] preferred@[k]).x <= 1 && -1
                        <= preferred@[k].y <= 1 && abs(preferred@[k].x as int) + abs(
                        preferred@[k].y as int,
                    ) <= 1,
                has_pixel(upright),
                upright.w() == 3,
                upright.h() == 3,
            decreases count - i,
        {
            let d = preferred[i];
            let pos = tank.pos.move_by(d);
            if !self.screen.collides(pos.x, pos.y, &tank.figure) {
                proof {
                    lemma_step_is_heading(d);
                }
                tank.move_(&d, &self.screen, &upright, true);
                return;
            }
            i = i + 1;
        }
        let direction = tank.direction();
        let pos = tank.pos.move_by(direction);
        if self.screen.collides(pos.x, pos.y, &tank.figure) {
            tank.rotate(&direction);
            proof {
                assert(heading(old(tank).rotation as int) == direction);
                let k = choose|k: nat|
                    k < 4 && tank.rotation == (old(tank).rotation + k) % 4 && turned_times(
                        old(tank).figure,
                        tank.figure,
                        k,
                    );
                assert(k == 0);
                assert(*tank == *old(tank));
            }
        }
        proof {
            assert(heading(tank.rotation as int) == direction);
        }
        tank.move_(&direction, &self.screen, &upright, false);
    }
}

pub open spec fn missile_cell(m: Missile) -> int {
    cell_index(m.x as int, m.y as int)
}

/// `s1` is `s0` with the cells of the missiles in flight painted red.
pub open spec fn missiles_painted(s0: Seq<u8>, s1: Seq<u8>, ms: Seq<Missile>) -> bool {
    &&& s1.len() == s0.len()
    &&& forall|c: int|
        0 <= c < s0.len() ==> #[trigger] s1[c] == if exists|k: int|
            0 <= k < ms.len() && missile_visible(ms[k]) && missile_cell(ms[k]) == c {
            RED_IDX
        } else {
            s0[c]
        }
}

fn paint_missiles(screen: &mut FrameBuffer, missiles: &[Missile; 8])
    ensures
        missiles_painted(old(screen)@, final(screen)@, missiles@),
{
    proof {
        screen.lemma_len();
    }
    let ghost s0 = screen@;
    let mut k: usize = 0;
    while k < MISSILES
        invariant
            k <= MISSILES,
            s0 == old(screen)@,
            s0.len() == 256,
            screen@.len() == 256,
            forall|c: int|
                0 <= c < 256 ==> #[trigger] screen@[c] == if exists|j: int|
                    0 <= j < k && missile_visible(missiles@[j]) && missile_cell(missiles@[j]) == c {
                    RED_IDX
                } else {
                    s0[c]
                },
        decreases MISSILES - k,
    {
        let m = missiles[k];
        if m.visible() {
            screen.set(m.x as usize, m.y as usize, RED_IDX);
        }
        proof {
            assert forall|c: int| 0 <= c < 256 implies #[trigger] screen@[c] == if exists|j: int|
                0 <= j < k + 1 && missile_visible(missiles@[j]) && missile_cell(missiles@[j]) == c {
                RED_IDX
            } else {
                s0[c]
            } by {
                if missile_visible(m) && missile_cell(m) == c {
                    assert(missiles@[k as int] == m);
                } else if exists|j: int|
                    0 <= j < k + 1 && missile_visible(missiles@[j]) && missile_cell(missiles@[j]) == c {
                    let j = choose|j: int|
                        0 <= j < k + 1 && missile_visible(missiles@[j]) && missile_cell(missiles@[j]) == c;
                    assert(j != k);
                }
            }
        }
        k = k + 1;
    }
}

/// Draws the last (up to four) decimal digits of `n` from column 0, four
/// columns apart, most significant first; nothing for 0.
fn paint_number(screen: &mut FrameBuffer, n: u32)
    ensures
        final(screen)@.len() == old(screen)@.len(),
        forall|i: int|
            5 * 8 <= i < old(screen)@.len() ==> #[trigger] final(screen)@[i] == old(screen)@[i],
{
    let mut digits = [0u8;4];
    let mut count: usize = 0;
    let mut rest = n;
    while rest > 0 && count < 4
        invariant
            count <= 4,
            forall|k: int| 0 <= k < 4 ==> #[trigger] digits@[k] < 10,
        decreases rest,
    {
        digits[count] = (rest % 10) as u8;
        rest = rest / 10;
        count = count + 1;
    }
    let table = Digits::standard();
    proof {
        screen.lemma_len();
    }
    let mut i: usize = count;
    while i > 0
        invariant
            i <= count <= 4,
            forall|k: int| 0 <= k < 4 ==> #[trigger] digits@[k] < 10,
            forall|k: int| 0 <= k < 10 ==> (#[trigger] table.0@[k]).wh == crate::digits::DIGIT_WH,
            screen@.len() == old(screen)@.len(),
            old(screen)@.len() == 256,
            forall|j: int| 5 * 8 <= j < 256 ==> #[trigger] screen@[j] == old(screen)@[j],
        decreases i,
    {
        i = i - 1;
        let x = ((count - 1 - i) * 4) as i8;
        let fig = table.at(digits[i] as usize);
        proof {
            assert(fig == table.0@[digits@[i as int] as int]);
            assert(crate::digits::DIGIT_WH == 53) by (bit_vector);
            assert(fig.h() == 5);
        }
        screen.draw_figure(x, 0, &fig, GREEN_IDX);
    }
}

proof fn lemma_tank_pixel(f: Figure)
    requires
        f.data == 0b110_011_110,
        f.w() == 3,
        f.h() == 3,
    ensures
        has_pixel(f),
{
    let d = f.data;
    assert((d >> 8u16) & 1u16 == 1u16) by (bit_vector)
        requires
            d == 0b110_011_110u16,
    ;
    assert(f.pixel(0, 0));
}

} // verus!
