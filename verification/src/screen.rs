//! What the terminal screens say: their lines of text, each made of pieces
//! with a tone, the waiting game drawn in characters, and the install
//! panel's gauge. The caller turns tones into colors and lays the lines out.

use vstd::prelude::*;
use vstd::string::*;

use crate::app::{
    App, AppView, NANOS_PER_SECOND, ProxyConfigField, Screen, reboot_allowed, reboot_countdown, selected_image_of,
    selected_target_of,
};
use crate::installer::RunMode;
use crate::memory::{memory_check_of, memory_summary};
use crate::custom_image::CustomImageView;
use crate::device::{
    InstallTarget, PartitionView, TargetView, format_bytes, format_bytes_text, kind_label, push_size_text,
    size_text,
};
use crate::manifest::{ImageEntry, ImageView, category_label_of, format_label};
use crate::runner::{Obstacle, ObstacleKind};
use crate::text::{chars_of, decimal, owned, push_char, push_decimal, push_str};

verus! {

/// How a piece of text is shown.
#[derive(Clone, Copy, Debug, PartialEq, Eq, Structural)]
pub enum Tone {
    /// As is.
    Plain,
    /// Bold.
    Bold,
    /// The labels of fields: teal, bold.
    Label,
    /// Highlighted: teal.
    Teal,
    /// Headings and warnings: red, bold.
    Heading,
    /// Values that stand out: white, bold.
    Strong,
    /// A badge: white on red, bold.
    Badge,
    /// A category bar: black on teal, bold.
    Category,
    /// A QR code: white on black.
    Code,
    /// White.
    White,
    /// Red.
    Red,
    /// The active input field's text: white on dark teal, bold.
    Field,
    /// An inactive input field's text: white on a darker teal, bold.
    IdleField,
}

/// A piece of text with its tone.
#[derive(Clone, Debug)]
pub struct Piece {
    pub text: String,
    pub tone: Tone,
}

/// A line of text.
#[derive(Clone, Debug)]
pub struct TextLine {
    pub pieces: Vec<Piece>,
}

/// A line as values: its pieces' texts and tones.
pub type LineView = Seq<(Seq<char>, Tone)>;

impl View for Piece {
    type V = (Seq<char>, Tone);

    open spec fn view(&self) -> (Seq<char>, Tone) {
        (self.text@, self.tone)
    }
}

impl View for TextLine {
    type V = LineView;

    open spec fn view(&self) -> LineView {
        crate::sort::views(self.pieces@)
    }
}

/// Lines as values.
pub open spec fn lines_view(ls: Seq<TextLine>) -> Seq<LineView> {
    crate::sort::views(ls)
}

/// A line of one piece.
pub open spec fn one(text: Seq<char>, tone: Tone) -> LineView {
    seq![(text, tone)]
}

/// A line with a label and a plain value.
pub open spec fn labeled(label: Seq<char>, value: Seq<char>) -> LineView {
    seq![(label, Tone::Label), (value, Tone::Plain)]
}

/// A line of one piece.
pub fn line_of(text: String, tone: Tone) -> (r: TextLine)
    ensures
        r@ == one(text@, tone),
{
    let r = TextLine { pieces: vec![Piece { text, tone }] };
    assert(r@ =~= one(text@, tone));
    r
}

/// A line of one piece of fixed text.
pub fn text_line(text: &str, tone: Tone) -> (r: TextLine)
    ensures
        r@ == one(text@, tone),
{
    line_of(owned(text), tone)
}

/// A line with a label and a plain value.
pub fn labeled_line(label: &str, value: String) -> (r: TextLine)
    ensures
        r@ == labeled(label@, value@),
{
    let r = TextLine {
        pieces: vec![Piece { text: owned(label), tone: Tone::Label }, Piece { text: value, tone: Tone::Plain }],
    };
    assert(r@ =~= labeled(label@, value@));
    r
}

/// A line of pieces.
pub fn line_from(pieces: Vec<Piece>) -> (r: TextLine)
    ensures
        r@ == crate::sort::views(pieces@),
{
    TextLine { pieces }
}

/// A piece.
pub fn piece(text: &str, tone: Tone) -> (r: Piece)
    ensures
        r@ == (text@, tone),
{
    Piece { text: owned(text), tone }
}

// The waiting game, drawn in characters.

/// A grid of `h` rows of `w` spaces.
pub open spec fn blank_grid(w: nat, h: nat) -> Seq<Seq<char>> {
    Seq::new(h, |r: int| Seq::new(w, |c: int| ' '))
}

/// The grid with row `row` made of underscores.
pub open spec fn with_ground(g: Seq<Seq<char>>, row: int) -> Seq<Seq<char>> {
    if 0 <= row < g.len() {
        g.update(row, Seq::new(g[row].len(), |c: int| '_'))
    } else {
        g
    }
}

/// The grid with `sprite` drawn with its top left corner at column `x` and
/// row `y`: its spaces are transparent; what falls outside is cut off.
pub open spec fn sprite_drawn(g: Seq<Seq<char>>, x: int, y: int, sprite: Seq<Seq<char>>) -> Seq<Seq<char>> {
    sprite_rows_drawn(g, x, y, sprite, sprite.len() as int)
}

/// The grid with the first `n` rows of `sprite` drawn (see `sprite_drawn`).
pub open spec fn sprite_rows_drawn(g: Seq<Seq<char>>, x: int, y: int, sprite: Seq<Seq<char>>, n: int) -> Seq<Seq<char>> {
    Seq::new(
        g.len(),
        |r: int|
            Seq::new(
                g[r].len(),
                |c: int|
                    if y <= r < y + n && 0 <= c - x < sprite[r - y].len() && sprite[r - y][c - x]
                        != ' ' {
                        sprite[r - y][c - x]
                    } else {
                        g[r][c]
                    },
            ),
    )
}

/// The runner: a stick figure three rows high.
pub open spec fn runner_sprite() -> Seq<Seq<char>> {
    seq![seq![' ', 'o', ' '], seq!['/', '|', '\\'], seq!['/', ' ', '\\']]
}

/// The drawing of an obstacle, two rows high.
pub open spec fn obstacle_sprite(kind: ObstacleKind) -> Seq<Seq<char>> {
    match kind {
        ObstacleKind::Cactus => seq![seq![' ', '\\', '|', '/', ' '], seq![' ', ' ', '|', ' ', ' ']],
        ObstacleKind::Rock => seq![seq!['/', '^', '^', '\\'], seq!['\\', '_', '_', '/']],
    }
}

/// The grid with the obstacles drawn in order, their tops on row `y`.
pub open spec fn obstacles_drawn(g: Seq<Seq<char>>, y: int, obstacles: Seq<Obstacle>) -> Seq<Seq<char>>
    decreases obstacles.len(),
{
    if obstacles.len() == 0 {
        g
    } else {
        sprite_drawn(
            obstacles_drawn(g, y, obstacles.drop_last()),
            obstacles.last().x as int,
            y,
            obstacle_sprite(obstacles.last().kind),
        )
    }
}

/// The game drawn in a grid `width` wide and `height` high: the ground on
/// the last row, the runner in columns 5 to 7 at its height (at most 4 rows
/// up, as the grid allows), the obstacles standing on the ground.
pub open spec fn runner_grid_of(width: nat, height: nat, runner_y: i16, obstacles: Seq<Obstacle>) -> Seq<Seq<char>> {
    let ground = height - 1;
    let g0 = with_ground(blank_grid(width, height), ground);
    let reach = if ground >= 3 {
        ground - 3
    } else {
        0
    };
    let max_y = if reach < 4 {
        reach
    } else {
        4
    };
    let y = if runner_y < 0 {
        0
    } else if runner_y > max_y {
        max_y
    } else {
        runner_y as int
    };
    let top = if ground >= y + 3 {
        ground - (y + 3)
    } else {
        0
    };
    let g1 = sprite_drawn(g0, 5, top, runner_sprite());
    let g2 = if ground < 2 {
        g1
    } else {
        obstacles_drawn(g1, ground - 2, obstacles)
    };
    with_ground(g2, ground)
}

/// Whether every obstacle stands where its drawing cannot overflow a column
/// number.
pub open spec fn obstacles_drawable(obstacles: Seq<Obstacle>) -> bool {
    forall|i: int| 0 <= i < obstacles.len() ==> (#[trigger] obstacles[i]).x <= 32761
}

fn draw_runner_ground(grid: &mut Vec<Vec<char>>, ground: usize)
    requires
        ground < old(grid)@.len(),
    ensures
        views_of(final(grid)@) == with_ground(views_of(old(grid)@), ground as int),
{
    let ghost before = views_of(grid@);
    let n = grid[ground].len();
    let mut row: Vec<char> = Vec::new();
    let mut c: usize = 0;
    while c < n
        invariant
            c <= n,
            row@ == Seq::new(c as nat, |k: int| '_'),
        decreases n - c,
    {
        row.push('_');
        assert(row@ =~= Seq::new((c + 1) as nat, |k: int| '_'));
        c = c + 1;
    }
    grid.set(ground, row);
    assert(views_of(grid@) =~= with_ground(before, ground as int));
}

/// The rows of a grid as character sequences.
pub open spec fn views_of(g: Seq<Vec<char>>) -> Seq<Seq<char>> {
    g.map_values(|row: Vec<char>| row@)
}

/// Draws a sprite on the grid (see `sprite_drawn`).
pub fn draw_sprite(grid: &mut Vec<Vec<char>>, x: i16, y: usize, sprite: &Vec<Vec<char>>)
    requires
        forall|r: int| 0 <= r < sprite@.len() ==> #[trigger] sprite@[r]@.len() <= 5,
        x <= 32761,
        y + sprite@.len() <= usize::MAX,
    ensures
        views_of(final(grid)@) == sprite_drawn(views_of(old(grid)@), x as int, y as int, views_of(sprite@)),
{
    let ghost g0 = views_of(grid@);
    let ghost sp = views_of(sprite@);
    let mut r: usize = 0;
    assert forall|k: int| 0 <= k < grid@.len() implies views_of(grid@)[k] =~= sprite_rows_drawn(
        g0,
        x as int,
        y as int,
        sp,
        0,
    )[k] by {}
    assert(views_of(grid@) =~= sprite_rows_drawn(g0, x as int, y as int, sp, 0));
    while r < sprite.len()
        invariant
            g0 == views_of(old(grid)@),
            sp == views_of(sprite@),
            r <= sprite@.len(),
            y + sprite@.len() <= usize::MAX,
            grid@.len() == g0.len(),
            forall|k: int| 0 <= k < sprite@.len() ==> #[trigger] sprite@[k]@.len() <= 5,
            x <= 32761,
            views_of(grid@) == sprite_rows_drawn(g0, x as int, y as int, sp, r as int),
        decreases sprite@.len() - r,
    {
        let row_index = y + r;
        let ghost before = views_of(grid@);
        if row_index < grid.len() {
            let row_chars = &sprite[r];
            assert(sp[r as int] == row_chars@);
            let mut c: usize = 0;
            while c < row_chars.len()
                invariant
                    c <= row_chars@.len(),
                    row_chars@.len() <= 5,
                    row_index < grid@.len(),
                    grid@.len() == before.len(),
                    x <= 32761,
                    forall|k: int| 0 <= k < grid@.len() && k != row_index ==> #[trigger] grid@[k]@ == before[k],
                    grid@[row_index as int]@.len() == before[row_index as int].len(),
                    forall|col: int|
                        0 <= col < before[row_index as int].len() ==> #[trigger] grid@[row_index as int]@[col]
                            == if 0 <= col - x < c && row_chars@[col - x] != ' ' {
                            row_chars@[col - x]
                        } else {
                            before[row_index as int][col]
                        },
                decreases row_chars@.len() - c,
            {
                let ch = row_chars[c];
                if ch != ' ' {
                    let col: i16 = x + (c as i16);
                    if col >= 0 {
                        let col = col as usize;
                        if col < grid[row_index].len() {
                            let mut row = grid[row_index].clone();
                            assert(row@ == grid@[row_index as int]@);
                            row.set(col, ch);
                            grid.set(row_index, row);
                        }
                    }
                }
                c = c + 1;
            }
            proof {
                let want = sprite_rows_drawn(g0, x as int, y as int, sp, r + 1);
                assert forall|k: int| 0 <= k < grid@.len() implies views_of(grid@)[k] =~= want[k] by {
                    assert(views_of(grid@)[k] == grid@[k]@);
                    assert(before[k] == sprite_rows_drawn(g0, x as int, y as int, sp, r as int)[k]);
                }
                assert(views_of(grid@) =~= want);
            }
        } else {
            proof {
                let want = sprite_rows_drawn(g0, x as int, y as int, sp, r + 1);
                assert forall|k: int| 0 <= k < grid@.len() implies views_of(grid@)[k] =~= want[k] by {
                    assert(before[k] == sprite_rows_drawn(g0, x as int, y as int, sp, r as int)[k]);
                }
                assert(views_of(grid@) =~= want);
            }
        }
        r = r + 1;
    }
}

/// The runner's sprite rows.
fn runner_sprite_rows() -> (r: Vec<Vec<char>>)
    ensures
        views_of(r@) == runner_sprite(),
        forall|k: int| 0 <= k < r@.len() ==> #[trigger] r@[k]@.len() <= 5,
{
    proof {
        reveal_strlit(" o ");
        reveal_strlit("/|\\");
        reveal_strlit("/ \\");
    }
    let r = vec![chars_of(" o "), chars_of("/|\\"), chars_of("/ \\")];
    assert(r@[0]@ =~= seq![' ', 'o', ' ']);
    assert(r@[1]@ =~= seq!['/', '|', '\\']);
    assert(r@[2]@ =~= seq!['/', ' ', '\\']);
    assert(views_of(r@) =~= runner_sprite());
    r
}

/// An obstacle's sprite rows.
fn obstacle_sprite_rows(kind: ObstacleKind) -> (r: Vec<Vec<char>>)
    ensures
        views_of(r@) == obstacle_sprite(kind),
        forall|k: int| 0 <= k < r@.len() ==> #[trigger] r@[k]@.len() <= 5,
{
    proof {
        reveal_strlit(" \\|/ ");
        reveal_strlit("  |  ");
        reveal_strlit("/^^\\");
        reveal_strlit("\\__/");
    }
    let r = match kind {
        ObstacleKind::Cactus => {
            let r = vec![chars_of(" \\|/ "), chars_of("  |  ")];
            assert(r@[0]@ =~= seq![' ', '\\', '|', '/', ' ']);
            assert(r@[1]@ =~= seq![' ', ' ', '|', ' ', ' ']);
            r
        },
        ObstacleKind::Rock => {
            let r = vec![chars_of("/^^\\"), chars_of("\\__/")];
            assert(r@[0]@ =~= seq!['/', '^', '^', '\\']);
            assert(r@[1]@ =~= seq!['\\', '_', '_', '/']);
            r
        },
    };
    assert(views_of(r@) =~= obstacle_sprite(kind));
    r
}

/// Draws the obstacles standing on the ground row (see `obstacles_drawn`);
/// nothing when the grid is too low for them.
pub fn draw_runner_obstacles(grid: &mut Vec<Vec<char>>, ground: usize, obstacles: &[Obstacle])
    requires
        obstacles_drawable(obstacles@),
    ensures
        views_of(final(grid)@) == if ground < 2 {
            views_of(old(grid)@)
        } else {
            obstacles_drawn(views_of(old(grid)@), ground - 2, obstacles@)
        },
{
    if ground < 2 {
        return;
    }
    let ghost g0 = views_of(grid@);
    let mut i: usize = 0;
    assert(obstacles@.take(0) =~= Seq::<Obstacle>::empty());
    while i < obstacles.len()
        invariant
            i <= obstacles@.len(),
            ground >= 2,
            g0 == views_of(old(grid)@),
            obstacles_drawable(obstacles@),
            views_of(grid@) == obstacles_drawn(g0, ground - 2, obstacles@.take(i as int)),
        decreases obstacles@.len() - i,
    {
        let o = obstacles[i];
        assert(obstacles@.take(i + 1).drop_last() =~= obstacles@.take(i as int));
        assert(obstacles@.take(i + 1).last() == o);
        let sprite = obstacle_sprite_rows(o.kind);
        assert(sprite@.len() == 2) by {
            assert(views_of(sprite@).len() == sprite@.len());
        }
        draw_sprite(grid, o.x, ground - 2, &sprite);
        i = i + 1;
    }
    assert(obstacles@.take(obstacles@.len() as int) =~= obstacles@);
}

/// The game drawn in text rows (see `runner_grid_of`).
pub fn runner_game_grid(width: usize, game_height: usize, runner_y: i16, obstacles: &[Obstacle]) -> (r:
    Vec<String>)
    requires
        game_height >= 1,
        obstacles_drawable(obstacles@),
    ensures
        crate::manifest::strs(r) == runner_grid_of(width as nat, game_height as nat, runner_y, obstacles@),
{
    let mut grid: Vec<Vec<char>> = Vec::new();
    let mut h: usize = 0;
    while h < game_height
        invariant
            h <= game_height,
            views_of(grid@) == blank_grid(width as nat, h as nat),
        decreases game_height - h,
    {
        let mut row: Vec<char> = Vec::new();
        let mut c: usize = 0;
        while c < width
            invariant
                c <= width,
                row@ == Seq::new(c as nat, |k: int| ' '),
            decreases width - c,
        {
            row.push(' ');
            assert(row@ =~= Seq::new((c + 1) as nat, |k: int| ' '));
            c = c + 1;
        }
        let ghost before = views_of(grid@);
        grid.push(row);
        assert(views_of(grid@) =~= blank_grid(width as nat, (h + 1) as nat)) by {
            assert(views_of(grid@) =~= before.push(Seq::new(width as nat, |k: int| ' ')));
        }
        h = h + 1;
    }
    let ground = game_height - 1;
    draw_runner_ground(&mut grid, ground);
    let reach: usize = if ground >= 3 {
        ground - 3
    } else {
        0
    };
    let max_y: usize = if reach < 4 {
        reach
    } else {
        4
    };
    let y: usize = if runner_y < 0 {
        0
    } else if (runner_y as usize) > max_y {
        max_y
    } else {
        runner_y as usize
    };
    let top: usize = if ground >= y + 3 {
        ground - (y + 3)
    } else {
        0
    };
    let sprite = runner_sprite_rows();
    assert(sprite@.len() == 3) by {
        assert(views_of(sprite@).len() == sprite@.len());
    }
    assert(top + 3 <= usize::MAX);
    let ghost g_before = views_of(grid@);
    draw_sprite(&mut grid, 5, top, &sprite);
    let ghost g_mid = views_of(grid@);
    assert(g_mid.len() == g_before.len());
    draw_runner_obstacles(&mut grid, ground, obstacles);
    proof {
        if ground >= 2 {
            lemma_obstacles_shape(g_mid, ground - 2, obstacles@);
        }
        assert(views_of(grid@).len() == grid@.len());
    }
    draw_runner_ground(&mut grid, ground);
    let ghost g = views_of(grid@);
    assert(g == runner_grid_of(width as nat, game_height as nat, runner_y, obstacles@));
    let mut rows: Vec<String> = Vec::new();
    let mut k: usize = 0;
    while k < grid.len()
        invariant
            k <= grid@.len(),
            g == views_of(grid@),
            crate::manifest::strs(rows) == g.take(k as int),
        decreases grid@.len() - k,
    {
        let ghost before = crate::manifest::strs(rows);
        let text = crate::text::string_of_range(&grid[k], 0, grid[k].len());
        assert(text@ =~= grid@[k as int]@);
        assert(g[k as int] == grid@[k as int]@);
        rows.push(text);
        assert(crate::manifest::strs(rows) =~= g.take(k + 1)) by {
            assert(crate::manifest::strs(rows) =~= before.push(grid@[k as int]@));
        }
        k = k + 1;
    }
    assert(g.take(g.len() as int) =~= g);
    rows
}

proof fn lemma_obstacles_shape(g: Seq<Seq<char>>, y: int, obs: Seq<Obstacle>)
    ensures
        obstacles_drawn(g, y, obs).len() == g.len(),
        forall|r: int| 0 <= r < g.len() ==> #[trigger] obstacles_drawn(g, y, obs)[r].len() == g[r].len(),
    decreases obs.len(),
{
    if obs.len() > 0 {
        lemma_obstacles_shape(g, y, obs.drop_last());
    }
}

proof fn lemma_sprite_local(g1: Seq<Seq<char>>, g2: Seq<Seq<char>>, x: int, y: int, sp: Seq<Seq<char>>, r: int, c: int)
    requires
        g1.len() == g2.len(),
        0 <= r < g1.len(),
        g1[r].len() == g2[r].len(),
        0 <= c < g1[r].len(),
        g1[r][c] == g2[r][c],
    ensures
        sprite_drawn(g1, x, y, sp)[r][c] == sprite_drawn(g2, x, y, sp)[r][c],
        sprite_drawn(g1, x, y, sp).len() == g1.len(),
        sprite_drawn(g1, x, y, sp)[r].len() == g1[r].len(),
        sprite_drawn(g2, x, y, sp)[r].len() == g2[r].len(),
{
}

proof fn lemma_obstacles_local(
    g1: Seq<Seq<char>>,
    g2: Seq<Seq<char>>,
    y: int,
    obs: Seq<Obstacle>,
    r: int,
    c: int,
)
    requires
        g1.len() == g2.len(),
        0 <= r < g1.len(),
        g1[r].len() == g2[r].len(),
        0 <= c < g1[r].len(),
        g1[r][c] == g2[r][c],
    ensures
        obstacles_drawn(g1, y, obs)[r][c] == obstacles_drawn(g2, y, obs)[r][c],
        obstacles_drawn(g1, y, obs).len() == g1.len(),
        obstacles_drawn(g2, y, obs).len() == g2.len(),
        obstacles_drawn(g1, y, obs)[r].len() == g1[r].len(),
        obstacles_drawn(g2, y, obs)[r].len() == g2[r].len(),
    decreases obs.len(),
{
    if obs.len() > 0 {
        lemma_obstacles_local(g1, g2, y, obs.drop_last(), r, c);
        lemma_sprite_local(
            obstacles_drawn(g1, y, obs.drop_last()),
            obstacles_drawn(g2, y, obs.drop_last()),
            obs.last().x as int,
            y,
            obstacle_sprite(obs.last().kind),
            r,
            c,
        );
    }
}

proof fn lemma_grid_shape(width: nat, height: nat, y: i16, obstacles: Seq<Obstacle>)
    requires
        height >= 1,
    ensures
        runner_grid_of(width, height, y, obstacles).len() == height,
        forall|r: int|
            0 <= r < height ==> #[trigger] runner_grid_of(width, height, y, obstacles)[r].len() == width,
        runner_grid_of(width, height, y, obstacles)[height - 1] =~= Seq::new(width, |c: int| '_'),
{
    let ground = height - 1;
    let g0 = with_ground(blank_grid(width, height), ground);
    assert forall|r: int| 0 <= r < height implies #[trigger] g0[r].len() == width by {}
    let reach = if ground >= 3 {
        ground - 3
    } else {
        0
    };
    let max_y = if reach < 4 {
        reach
    } else {
        4
    };
    let ya = if y < 0 {
        0
    } else if y > max_y {
        max_y
    } else {
        y as int
    };
    let ta = if ground >= ya + 3 {
        ground - (ya + 3)
    } else {
        0
    };
    let g1 = sprite_drawn(g0, 5, ta, runner_sprite());
    assert forall|r: int| 0 <= r < height implies #[trigger] g1[r].len() == width by {}
    if ground >= 2 {
        lemma_obstacles_shape(g1, ground - 2, obstacles);
    }
}

/// The jump moves the runner only: whatever its height, the grid is the
/// same outside columns 5 to 7, and the last row is all ground.
pub proof fn lemma_jump_moves_only_the_runner(
    width: nat,
    height: nat,
    y1: i16,
    y2: i16,
    obstacles: Seq<Obstacle>,
)
    requires
        height >= 1,
    ensures
        ({
            let a = runner_grid_of(width, height, y1, obstacles);
            let b = runner_grid_of(width, height, y2, obstacles);
            &&& a.len() == height
            &&& b.len() == height
            &&& a[height - 1] == Seq::new(width, |c: int| '_')
            &&& forall|r: int, c: int|
                0 <= r < height && 0 <= c < width && !(5 <= c <= 7) ==> #[trigger] a[r][c] == b[r][c]
        }),
{
    let a = runner_grid_of(width, height, y1, obstacles);
    let b = runner_grid_of(width, height, y2, obstacles);
    let ground = height - 1;
    let g0 = with_ground(blank_grid(width, height), ground);
    assert(g0.len() == height);
    assert forall|r: int| 0 <= r < height implies #[trigger] g0[r].len() == width by {}
    lemma_grid_shape(width, height, y1, obstacles);
    lemma_grid_shape(width, height, y2, obstacles);
    assert forall|r: int, c: int|
        0 <= r < height && 0 <= c < width && !(5 <= c <= 7) implies #[trigger] a[r][c] == b[r][c] by {
        let reach = if ground >= 3 {
            ground - 3
        } else {
            0
        };
        let max_y = if reach < 4 {
            reach
        } else {
            4
        };
        let ya = if y1 < 0 {
            0
        } else if y1 > max_y {
            max_y
        } else {
            y1 as int
        };
        let yb = if y2 < 0 {
            0
        } else if y2 > max_y {
            max_y
        } else {
            y2 as int
        };
        let ta = if ground >= ya + 3 {
            ground - (ya + 3)
        } else {
            0
        };
        let tb = if ground >= yb + 3 {
            ground - (yb + 3)
        } else {
            0
        };
        let a1 = sprite_drawn(g0, 5, ta, runner_sprite());
        let b1 = sprite_drawn(g0, 5, tb, runner_sprite());
        assert(a1[r][c] == g0[r][c]);
        assert(b1[r][c] == g0[r][c]);
        if ground >= 2 {
            lemma_obstacles_local(a1, b1, ground - 2, obstacles, r, c);
        }
    }
}

// The install panel.

/// A number of at least two digits.
pub open spec fn pad02(n: nat) -> Seq<char> {
    if n < 10 {
        "0"@ + decimal(n)
    } else {
        decimal(n)
    }
}

fn push_pad02(s: &mut String, n: u64)
    ensures
        final(s)@ == old(s)@ + pad02(n as nat),
{
    if n < 10 {
        push_str(s, "0");
    }
    push_decimal(s, n);
}

/// A duration in nanoseconds as minutes and seconds, `MM:SS`.
pub open spec fn duration_text(nanos: u64) -> Seq<char> {
    let secs = nanos / NANOS_PER_SECOND;
    pad02((secs / 60) as nat) + ":"@ + pad02((secs % 60) as nat)
}

/// A duration in nanoseconds as minutes and seconds (see `duration_text`).
pub fn format_duration(nanos: u64) -> (r: String)
    ensures
        r@ == duration_text(nanos),
{
    let secs = nanos / NANOS_PER_SECOND;
    let mut s = String::new();
    push_pad02(&mut s, secs / 60);
    push_str(&mut s, ":");
    push_pad02(&mut s, secs % 60);
    s
}

/// The spinner frame shown at a tick.
pub open spec fn activity_of(tick: u64) -> Seq<char> {
    if tick % 4 == 0 {
        "|"@
    } else if tick % 4 == 1 {
        "/"@
    } else if tick % 4 == 2 {
        "-"@
    } else {
        "\\"@
    }
}

/// The spinner frame shown at a tick.
pub fn activity_symbol(tick: u64) -> (r: &'static str)
    ensures
        r@ == activity_of(tick),
{
    if tick % 4 == 0 {
        "|"
    } else if tick % 4 == 1 {
        "/"
    } else if tick % 4 == 2 {
        "-"
    } else {
        "\\"
    }
}

/// Progress as `current / total`, or the current count alone.
pub open spec fn progress_bytes_text(current: u64, total: Option<u64>) -> Seq<char> {
    match total {
        Some(t) => size_text(current as nat) + " / "@ + size_text(t as nat),
        None => size_text(current as nat),
    }
}

/// Progress as `current / total` (see `progress_bytes_text`).
pub fn format_progress_bytes(current: u64, total: Option<u64>) -> (r: String)
    ensures
        r@ == progress_bytes_text(current, total),
{
    let mut s = String::new();
    push_size_text(&mut s, current);
    match total {
        Some(t) => {
            push_str(&mut s, " / ");
            push_size_text(&mut s, t);
        },
        None => {},
    }
    s
}

/// `part` as a percentage of `whole` with two decimals, the hundredths
/// rounded to the nearest, ties to even.
pub open spec fn percent_text(part: u64, whole: u64) -> Seq<char> {
    let h = crate::device::round_half_even((part * 10000) as nat, whole as nat);
    decimal(h / 100) + "."@ + pad02(h % 100)
}

fn push_percent(s: &mut String, part: u64, whole: u64)
    requires
        whole > 0,
    ensures
        final(s)@ == old(s)@ + percent_text(part, whole),
{
    let n: u128 = (part as u128) * 10000;
    let d: u128 = whole as u128;
    assert(n / d <= n) by (nonlinear_arith)
        requires
            d > 0,
    ;
    let h = crate::device::div_round_half_even(n, d);
    crate::text::push_decimal_wide(s, h / 100);
    push_str(s, ".");
    push_pad02(s, (h % 100) as u64);
}

/// The larger of a count and one.
pub open spec fn at_least_one(n: u64) -> u64 {
    if n < 1 {
        1
    } else {
        n
    }
}

/// What the install panel shows.
#[derive(Debug)]
pub struct InstallPanel {
    /// The details: image, target, phase, activity and byte counts.
    pub details: Vec<TextLine>,
    /// The gauge's title.
    pub gauge_title: String,
    /// The text on the gauge.
    pub gauge_label: String,
    /// How full the gauge is, as a part of a whole (the caller clamps the
    /// quotient to 0..1).
    pub ratio: (u64, u64),
    /// Whether the waiting game is shown below the gauge.
    pub show_game: bool,
    /// What is shown below the gauge instead of the game.
    pub side_lines: Vec<TextLine>,
    /// The line at the bottom.
    pub footer: String,
}

/// An install panel as values.
pub ghost struct PanelView {
    pub details: Seq<LineView>,
    pub gauge_title: Seq<char>,
    pub gauge_label: Seq<char>,
    pub ratio: (u64, u64),
    pub show_game: bool,
    pub side_lines: Seq<LineView>,
    pub footer: Seq<char>,
}

impl View for InstallPanel {
    type V = PanelView;

    open spec fn view(&self) -> PanelView {
        PanelView {
            details: lines_view(self.details@),
            gauge_title: self.gauge_title@,
            gauge_label: self.gauge_label@,
            ratio: self.ratio,
            show_game: self.show_game,
            side_lines: lines_view(self.side_lines@),
            footer: self.footer@,
        }
    }
}

/// The spinner tick of the install: one frame per 200 ms since the start.
pub open spec fn install_tick(v: AppView, now: u64) -> u64 {
    match crate::app::elapsed_of(v, now) {
        Some(e) => ((e / 1000000) / 200) as u64,
        None => 0,
    }
}

/// The details lines of the install panel.
pub open spec fn install_details_of(v: AppView, now: u64) -> Seq<LineView> {
    let act = activity_of(install_tick(v, now));
    let elapsed = match crate::app::elapsed_of(v, now) {
        Some(e) => e,
        None => 0,
    };
    let rate = match crate::app::rate_of(v, now) {
        Some(r) => size_text(r as nat) + "/s"@,
        None => "starting"@,
    };
    let downloaded = match v.progress {
        Some(p) => match p.source_current {
            Some(c) => progress_bytes_text(c, p.source_total),
            None => "starting"@,
        },
        None => "starting"@,
    };
    let written = match v.progress {
        Some(p) => progress_bytes_text(p.current, p.total),
        None => "starting"@,
    };
    seq![
        one("Installing"@, Tone::Heading),
        one(""@, Tone::Plain),
        labeled(
            "Image: "@,
            match selected_image_of(v) {
                Some(i) => i.name,
                None => "selected image"@,
            },
        ),
        labeled(
            "Target: "@,
            match selected_target_of(v) {
                Some(t) => t.path,
                None => "selected target"@,
            },
        ),
        labeled("Phase: "@, v.status),
        seq![
            ("Activity: "@, Tone::Label),
            (act, Tone::Label),
            ("  "@, Tone::Plain),
            ("Elapsed: "@, Tone::Label),
            (duration_text(elapsed), Tone::Plain),
            ("  "@, Tone::Plain),
            ("Rate: "@, Tone::Label),
            (rate, Tone::Plain),
        ],
        seq![
            ("Downloaded: "@, Tone::Label),
            (downloaded, Tone::Plain),
            ("  "@, Tone::Plain),
            ("Written: "@, Tone::Label),
            (written, Tone::Plain),
        ],
    ]
}

/// How full the gauge is: the bytes written of the total, else the bytes
/// downloaded of the download, else empty.
pub open spec fn gauge_ratio_of(v: AppView) -> (u64, u64) {
    match v.progress {
        Some(p) => match p.total {
            Some(t) => (p.current, at_least_one(t)),
            None => match (p.source_current, p.source_total) {
                (Some(c), Some(t)) => (c, at_least_one(t)),
                _ => (0, 1),
            },
        },
        None => (0, 1),
    }
}

/// The text on the gauge.
pub open spec fn gauge_label_of(v: AppView, now: u64) -> Seq<char> {
    let act = activity_of(install_tick(v, now));
    match v.progress {
        Some(p) => match p.total {
            Some(t) => act + "  "@ + size_text(p.current as nat) + " / "@ + size_text(t as nat) + "  ("@
                + percent_text(p.current, at_least_one(t)) + "%)"@,
            None => match (p.source_current, p.source_total) {
                (Some(c), Some(t)) => act + "  downloaded "@ + size_text(c as nat) + " / "@ + size_text(
                    t as nat,
                ) + "  ("@ + percent_text(c, at_least_one(t)) + "%)"@,
                _ => act + "  written "@ + size_text(p.current as nat),
            },
        },
        None => act + "  starting"@,
    }
}

/// The install panel at `now`.
pub open spec fn install_panel_of(v: AppView, now: u64) -> PanelView {
    PanelView {
        details: install_details_of(v, now),
        gauge_title: match v.progress {
            Some(p) => " "@ + p.phase + " "@,
            None => " Progress "@,
        },
        gauge_label: gauge_label_of(v, now),
        ratio: gauge_ratio_of(v),
        show_game: !v.lite_guard,
        side_lines: if v.lite_guard {
            seq![
                one("TOBI-lite compact install display"@, Tone::Label),
                one(""@, Tone::Plain),
                one("Memory snapshots are written to /run/tobi-memory.log."@, Tone::Plain),
                one("Serial handoff remains available from ttyS2 with SERIAL."@, Tone::Plain),
            ]
        } else {
            Seq::empty()
        },
        footer: if v.lite_guard {
            "Do not power off the board during a live install."@
        } else {
            "Do not power off the board during a live install. Space/Up jumps."@
        },
    }
}

fn install_details(app: &App, now: u64) -> (r: Vec<TextLine>)
    ensures
        lines_view(r@) == install_details_of(app@, now),
{
    let ghost v = app@;
    let tick: u64 = match app.install_elapsed(now) {
        Some(e) => (e / 1000000) / 200,
        None => 0,
    };
    let act = activity_symbol(tick);
    let elapsed = match app.install_elapsed(now) {
        Some(e) => e,
        None => 0,
    };
    let rate = match app.install_rate_bytes_per_second(now) {
        Some(r) => {
            let mut s = String::new();
            push_size_text(&mut s, r);
            push_str(&mut s, "/s");
            s
        },
        None => owned("starting"),
    };
    let downloaded = match app.progress() {
        Some(p) => match p.source_current {
            Some(c) => format_progress_bytes(c, p.source_total),
            None => owned("starting"),
        },
        None => owned("starting"),
    };
    let written = match app.progress() {
        Some(p) => format_progress_bytes(p.current, p.total),
        None => owned("starting"),
    };
    let image = match app.selected_image() {
        Some(i) => i.name.clone(),
        None => owned("selected image"),
    };
    let target = match app.selected_target() {
        Some(t) => t.path.clone(),
        None => owned("selected target"),
    };
    let r = vec![
        text_line("Installing", Tone::Heading),
        text_line("", Tone::Plain),
        labeled_line("Image: ", image),
        labeled_line("Target: ", target),
        labeled_line("Phase: ", owned(app.status())),
        line_from(
            vec![
                piece("Activity: ", Tone::Label),
                piece(act, Tone::Label),
                piece("  ", Tone::Plain),
                piece("Elapsed: ", Tone::Label),
                Piece { text: format_duration(elapsed), tone: Tone::Plain },
                piece("  ", Tone::Plain),
                piece("Rate: ", Tone::Label),
                Piece { text: rate, tone: Tone::Plain },
            ],
        ),
        line_from(
            vec![
                piece("Downloaded: ", Tone::Label),
                Piece { text: downloaded, tone: Tone::Plain },
                piece("  ", Tone::Plain),
                piece("Written: ", Tone::Label),
                Piece { text: written, tone: Tone::Plain },
            ],
        ),
    ];
    assert(r@[5]@ =~= install_details_of(v, now)[5]);
    assert(r@[6]@ =~= install_details_of(v, now)[6]);
    assert(lines_view(r@) =~= install_details_of(v, now));
    r
}

fn gauge_label(app: &App, now: u64) -> (r: String)
    ensures
        r@ == gauge_label_of(app@, now),
{
    let tick: u64 = match app.install_elapsed(now) {
        Some(e) => (e / 1000000) / 200,
        None => 0,
    };
    let mut s = owned(activity_symbol(tick));
    match app.progress() {
        Some(p) => match p.total {
            Some(t) => {
                push_str(&mut s, "  ");
                push_size_text(&mut s, p.current);
                push_str(&mut s, " / ");
                push_size_text(&mut s, t);
                push_str(&mut s, "  (");
                push_percent(&mut s, p.current, if t < 1 { 1 } else { t });
                push_str(&mut s, "%)");
            },
            None => match (p.source_current, p.source_total) {
                (Some(c), Some(t)) => {
                    push_str(&mut s, "  downloaded ");
                    push_size_text(&mut s, c);
                    push_str(&mut s, " / ");
                    push_size_text(&mut s, t);
                    push_str(&mut s, "  (");
                    push_percent(&mut s, c, if t < 1 { 1 } else { t });
                    push_str(&mut s, "%)");
                },
                _ => {
                    push_str(&mut s, "  written ");
                    push_size_text(&mut s, p.current);
                },
            },
        },
        None => {
            push_str(&mut s, "  starting");
        },
    }
    s
}

/// The install panel at `now` (see `install_panel_of`).
pub fn install_panel(app: &App, now: u64) -> (r: InstallPanel)
    ensures
        r@ == install_panel_of(app@, now),
{
    let ghost v = app@;
    let details = install_details(app, now);
    let gauge_title = match app.progress() {
        Some(p) => {
            let mut t = owned(" ");
            push_str(&mut t, p.phase.as_str());
            push_str(&mut t, " ");
            t
        },
        None => owned(" Progress "),
    };
    let ratio: (u64, u64) = match app.progress() {
        Some(p) => match p.total {
            Some(t) => (p.current, if t < 1 { 1 } else { t }),
            None => match (p.source_current, p.source_total) {
                (Some(c), Some(t)) => (c, if t < 1 { 1 } else { t }),
                _ => (0, 1),
            },
        },
        None => (0, 1),
    };
    let lite = app.lite_mode();
    let side_lines = if lite {
        vec![
            text_line("TOBI-lite compact install display", Tone::Label),
            text_line("", Tone::Plain),
            text_line("Memory snapshots are written to /run/tobi-memory.log.", Tone::Plain),
            text_line("Serial handoff remains available from ttyS2 with SERIAL.", Tone::Plain),
        ]
    } else {
        Vec::new()
    };
    let footer = if lite {
        owned("Do not power off the board during a live install.")
    } else {
        owned("Do not power off the board during a live install. Space/Up jumps.")
    };
    let r = InstallPanel {
        details,
        gauge_title,
        gauge_label: gauge_label(app, now),
        ratio,
        show_game: !lite,
        side_lines,
        footer,
    };
    assert(r@.side_lines =~= install_panel_of(v, now).side_lines);
    assert(r@ =~~= install_panel_of(v, now));
    r
}

/// Appends a line to a list of lines.
pub fn push_line(lines: &mut Vec<TextLine>, line: TextLine)
    ensures
        lines_view(final(lines)@) == lines_view(old(lines)@).push(line@),
{
    lines.push(line);
    assert(lines_view(lines@) =~= lines_view(old(lines)@).push(line@));
}

/// Appends one plain line per line of `text`.
pub fn push_text_lines(lines: &mut Vec<TextLine>, text: &str)
    ensures
        lines_view(final(lines)@) == lines_view(old(lines)@) + plain_lines(crate::text::text_lines(text@)),
{
    let parts = crate::text::lines_of(text);
    let ghost ps = parts@.map_values(|x: String| x@);
    let ghost start = lines_view(lines@);
    let mut i: usize = 0;
    assert(plain_lines(ps.take(0)) =~= Seq::<LineView>::empty());
    assert(start + Seq::<LineView>::empty() =~= start);
    while i < parts.len()
        invariant
            i <= parts@.len(),
            ps == parts@.map_values(|x: String| x@),
            ps == crate::text::text_lines(text@),
            lines_view(lines@) == start + plain_lines(ps.take(i as int)),
        decreases parts@.len() - i,
    {
        assert(ps.take(i + 1).drop_last() =~= ps.take(i as int));
        assert(ps[i as int] == parts@[i as int]@);
        push_line(lines, line_of(parts[i].clone(), Tone::Plain));
        assert(start + plain_lines(ps.take(i + 1)) =~= (start + plain_lines(ps.take(i as int))).push(
            one(ps[i as int], Tone::Plain),
        ));
        i = i + 1;
    }
    assert(ps.take(ps.len() as int) =~= ps);
}

/// Plain lines of the given texts.
pub open spec fn plain_lines(texts: Seq<Seq<char>>) -> Seq<LineView>
    decreases texts.len(),
{
    if texts.len() == 0 {
        Seq::empty()
    } else {
        plain_lines(texts.drop_last()).push(one(texts.last(), Tone::Plain))
    }
}

// The waiting game panel.

/// The size of the game's grid in a panel `width` by `height`: inside the
/// border, one row for the score, 3 to 6 rows high, at least 24 columns.
pub open spec fn game_size(width: u16, height: u16) -> (nat, nat) {
    let rows: int = if height >= 2 {
        height - 2
    } else {
        0
    };
    let h: int = if rows >= 1 {
        rows - 1
    } else {
        0
    };
    let h = if h < 3 {
        3
    } else if h > 6 {
        6
    } else {
        h
    };
    let w: int = if width >= 2 {
        width - 2
    } else {
        0
    };
    (if w < 24 {
        24
    } else {
        w
    } as nat, h as nat)
}

/// The lines of the game panel: the score, then the grid.
pub open spec fn runner_panel_of(v: AppView, width: u16, height: u16) -> Seq<LineView> {
    let (w, h) = game_size(width, height);
    seq![
        seq![
            ("Score: "@, Tone::Label),
            (decimal(v.runner.score as nat), Tone::Plain),
            ("   "@, Tone::Plain),
            ("Space/Up/W jump"@, Tone::Teal),
        ],
    ] + plain_lines(runner_grid_of(w, h, v.runner.runner_y, v.runner.obstacles))
}

/// The lines of the game panel (see `runner_panel_of`).
pub fn runner_panel(app: &App, width: u16, height: u16) -> (r: Vec<TextLine>)
    requires
        app.wf(),
    ensures
        lines_view(r@) == runner_panel_of(app@, width, height),
{
    let ghost v = app@;
    let rows: u16 = if height >= 2 {
        height - 2
    } else {
        0
    };
    let h: u16 = if rows >= 1 {
        rows - 1
    } else {
        0
    };
    let h: u16 = if h < 3 {
        3
    } else if h > 6 {
        6
    } else {
        h
    };
    let w: u16 = if width >= 2 {
        width - 2
    } else {
        0
    };
    let w: u16 = if w < 24 {
        24
    } else {
        w
    };
    let runner = app.runner();
    let mut score = String::new();
    push_decimal(&mut score, runner.score());
    let mut lines: Vec<TextLine> = Vec::new();
    push_line(
        &mut lines,
        line_from(
            vec![
                piece("Score: ", Tone::Label),
                Piece { text: score, tone: Tone::Plain },
                piece("   ", Tone::Plain),
                piece("Space/Up/W jump", Tone::Teal),
            ],
        ),
    );
    proof {
        assert(crate::runner::runner_wf(v.runner));
    }
    let obstacles = runner.obstacles();
    assert(obstacles_drawable(obstacles@)) by {
        assert forall|i: int| 0 <= i < obstacles@.len() implies (#[trigger] obstacles@[i]).x <= 32761 by {
            assert(crate::runner::obstacle_ok(v.runner.obstacles[i]));
        }
    }
    let grid = runner_game_grid(w as usize, h as usize, runner.runner_y(), obstacles);
    let ghost start = lines_view(lines@);
    let ghost g = crate::manifest::strs(grid);
    let mut k: usize = 0;
    assert(plain_lines(g.take(0)) =~= Seq::<LineView>::empty());
    assert(start + Seq::<LineView>::empty() =~= start);
    while k < grid.len()
        invariant
            k <= grid@.len(),
            g == crate::manifest::strs(grid),
            lines_view(lines@) == start + plain_lines(g.take(k as int)),
        decreases grid@.len() - k,
    {
        assert(g.take(k + 1).drop_last() =~= g.take(k as int));
        assert(g[k as int] == grid@[k as int]@);
        push_line(&mut lines, line_of(grid[k].clone(), Tone::Plain));
        assert(start + plain_lines(g.take(k + 1)) =~= (start + plain_lines(g.take(k as int))).push(
            one(g[k as int], Tone::Plain),
        ));
        k = k + 1;
    }
    assert(g.take(g.len() as int) =~= g);
    assert(game_size(width, height) == (w as nat, h as nat));
    assert(g == runner_grid_of(w as nat, h as nat, v.runner.runner_y, v.runner.obstacles));
    assert(start[0] =~= seq![
        ("Score: "@, Tone::Label),
        (decimal(v.runner.score as nat), Tone::Plain),
        ("   "@, Tone::Plain),
        ("Space/Up/W jump"@, Tone::Teal),
    ]);
    assert(lines_view(lines@) =~= runner_panel_of(v, width, height));
    lines
}

// The footer, the result and the warning.

/// The keys the footer lists on each screen.
pub open spec fn footer_of(v: AppView, now: u64) -> Seq<char> {
    match v.screen {
        Screen::Welcome => "Enter continue | Q quit"@,
        Screen::Installing => "installing | Space/Up/W jump | Ctrl-C quit"@,
        Screen::ImageSelect => "Up/Down choose image | Enter continue | R refresh targets | Q quit"@,
        Screen::CustomImageSelect => "Up/Down choose image | Enter continue | Backspace back | R rescan media | Q quit"@,
        Screen::ProxyConfig => "type field value | Enter next/retry | Up/Down field | Esc continue offline"@,
        Screen::TargetSelect => "Up/Down choose target | Left/Right hide/show partitions | Enter continue | R refresh | Q quit"@,
        Screen::Confirm => "Enter install | Backspace back | Q quit"@,
        Screen::Complete => if reboot_allowed(v) {
            match reboot_countdown(v, now) {
                Some(secs) => "auto reboot in "@ + decimal(secs as nat) + "s | Enter reboot | R start over | Q quit"@,
                None => "Enter reboot | R start over | Q quit"@,
            }
        } else {
            "Enter/R start over | Q quit"@
        },
        Screen::Error => "Enter/R start over | Q quit"@,
    }
}

/// The keys the footer lists (see `footer_of`).
pub fn footer_keys(app: &App, now: u64) -> (r: String)
    requires
        app.wf(),
    ensures
        r@ == footer_of(app@, now),
{
    match app.screen() {
        Screen::Welcome => owned("Enter continue | Q quit"),
        Screen::Installing => owned("installing | Space/Up/W jump | Ctrl-C quit"),
        Screen::ImageSelect => owned("Up/Down choose image | Enter continue | R refresh targets | Q quit"),
        Screen::CustomImageSelect => owned(
            "Up/Down choose image | Enter continue | Backspace back | R rescan media | Q quit",
        ),
        Screen::ProxyConfig => owned("type field value | Enter next/retry | Up/Down field | Esc continue offline"),
        Screen::TargetSelect => owned(
            "Up/Down choose target | Left/Right hide/show partitions | Enter continue | R refresh | Q quit",
        ),
        Screen::Confirm => owned("Enter install | Backspace back | Q quit"),
        Screen::Complete => if app.can_reboot_after_complete() {
            match app.complete_auto_reboot_seconds(now) {
                Some(secs) => {
                    let mut s = owned("auto reboot in ");
                    push_decimal(&mut s, secs);
                    push_str(&mut s, "s | Enter reboot | R start over | Q quit");
                    s
                },
                None => owned("Enter reboot | R start over | Q quit"),
            }
        } else {
            owned("Enter/R start over | Q quit")
        },
        Screen::Error => owned("Enter/R start over | Q quit"),
    }
}

/// The lines of the result panel: a title, the status, then what the keys
/// do, with the reboot countdown after a rebooting install.
pub open spec fn result_lines_of(v: AppView, now: u64) -> Seq<LineView> {
    let title = if v.screen == Screen::Complete {
        one("Success"@, Tone::Label)
    } else {
        one("Install Failed"@, Tone::Heading)
    };
    let prompt = if v.screen == Screen::Complete {
        match reboot_countdown(v, now) {
            Some(secs) => seq![
                one("Auto-rebooting in "@ + decimal(secs as nat) + " seconds."@, Tone::Label),
                one("Press Enter to reboot now."@, Tone::Plain),
                one("Press R to start over."@, Tone::Plain),
            ],
            None => seq![one("Press Enter or R to start over."@, Tone::Plain)],
        }
    } else {
        seq![one("Press Enter or R to start over."@, Tone::Plain), one("Press Q to quit."@, Tone::Plain)]
    };
    seq![title, one(""@, Tone::Plain)] + plain_lines(crate::text::text_lines(v.status)) + seq![
        one(""@, Tone::Plain),
    ] + prompt
}

/// The lines of the result panel (see `result_lines_of`).
pub fn result_lines(app: &App, now: u64) -> (r: Vec<TextLine>)
    requires
        app.wf(),
    ensures
        lines_view(r@) == result_lines_of(app@, now),
{
    let ghost v = app@;
    let complete = app.screen() == Screen::Complete;
    let mut lines: Vec<TextLine> = Vec::new();
    if complete {
        push_line(&mut lines, text_line("Success", Tone::Label));
    } else {
        push_line(&mut lines, text_line("Install Failed", Tone::Heading));
    }
    push_line(&mut lines, text_line("", Tone::Plain));
    push_text_lines(&mut lines, app.status());
    push_line(&mut lines, text_line("", Tone::Plain));
    let ghost before = lines_view(lines@);
    if complete {
        match app.complete_auto_reboot_seconds(now) {
            Some(secs) => {
                let mut t = owned("Auto-rebooting in ");
                push_decimal(&mut t, secs);
                push_str(&mut t, " seconds.");
                push_line(&mut lines, line_of(t, Tone::Label));
                push_line(&mut lines, text_line("Press Enter to reboot now.", Tone::Plain));
                push_line(&mut lines, text_line("Press R to start over.", Tone::Plain));
            },
            None => {
                push_line(&mut lines, text_line("Press Enter or R to start over.", Tone::Plain));
            },
        }
    } else {
        push_line(&mut lines, text_line("Press Enter or R to start over.", Tone::Plain));
        push_line(&mut lines, text_line("Press Q to quit.", Tone::Plain));
    }
    assert(lines_view(lines@) =~= result_lines_of(v, now));
    lines
}

/// The lines of the warning pop-up.
pub open spec fn warning_lines_of(v: AppView) -> Seq<LineView> {
    seq![one("Network Warning"@, Tone::Heading), one(""@, Tone::Plain)] + plain_lines(
        crate::text::text_lines(
            match v.warning {
                Some(w) => w,
                None => Seq::empty(),
            },
        ),
    ) + seq![
        one(""@, Tone::Plain),
        one("Enter: continue with local/custom images"@, Tone::Plain),
        one("P: set UTC time and proxy, then retry online catalog"@, Tone::Plain),
    ]
}

/// The lines of the warning pop-up (see `warning_lines_of`).
pub fn warning_lines(app: &App) -> (r: Vec<TextLine>)
    ensures
        lines_view(r@) == warning_lines_of(app@),
{
    let ghost v = app@;
    let mut lines: Vec<TextLine> = Vec::new();
    push_line(&mut lines, text_line("Network Warning", Tone::Heading));
    push_line(&mut lines, text_line("", Tone::Plain));
    match app.warning() {
        Some(w) => push_text_lines(&mut lines, w),
        None => push_text_lines(&mut lines, ""),
    }
    push_line(&mut lines, text_line("", Tone::Plain));
    push_line(&mut lines, text_line("Enter: continue with local/custom images", Tone::Plain));
    push_line(&mut lines, text_line("P: set UTC time and proxy, then retry online catalog", Tone::Plain));
    proof {
        reveal_strlit("");
        assert(""@ =~= Seq::<char>::empty());
    }
    assert(lines_view(lines@) =~= warning_lines_of(v));
    lines
}

/// The lines of the confirmation panel, with `available` bytes of RAM free
/// (when known).
pub open spec fn confirm_lines_of(v: AppView, available: Option<u64>) -> Seq<LineView> {
    seq![
        one("Ready to install"@, Tone::Heading),
        one(""@, Tone::Plain),
        labeled(
            "Image: "@,
            match selected_image_of(v) {
                Some(i) => i.name,
                None => "unknown image"@,
            },
        ),
        labeled(
            "Target: "@,
            match selected_target_of(v) {
                Some(t) => t.name,
                None => "unknown target"@,
            },
        ),
        labeled(
            "Path: "@,
            match selected_target_of(v) {
                Some(t) => t.path,
                None => "unknown target"@,
            },
        ),
        labeled(
            "RAM: "@,
            match selected_image_of(v) {
                Some(i) => memory_summary(memory_check_of(i.format, v.lite_guard, available)),
                None => "unknown"@,
            },
        ),
        one(""@, Tone::Plain),
        one("TOBI streams images - the full image does not need to fit in RAM."@, Tone::Plain),
        one(""@, Tone::Plain),
        if v.run_mode == RunMode::Live {
            one("LIVE MODE WILL OVERWRITE THE SELECTED TARGET."@, Tone::Heading)
        } else {
            one("Mock mode will simulate the install without writing storage."@, Tone::Plain)
        },
        one(""@, Tone::Plain),
        one("Press Enter to start. Press Backspace to choose a different target."@, Tone::Plain),
    ]
}

/// The lines of the confirmation panel (see `confirm_lines_of`).
pub fn confirm_lines(app: &App, available: Option<u64>) -> (r: Vec<TextLine>)
    ensures
        lines_view(r@) == confirm_lines_of(app@, available),
{
    let ghost v = app@;
    let image = match app.selected_image() {
        Some(i) => i.name.clone(),
        None => owned("unknown image"),
    };
    let (target, path) = match app.selected_target() {
        Some(t) => (t.name.clone(), t.path.clone()),
        None => (owned("unknown target"), owned("unknown target")),
    };
    let ram = match app.memory_check(available) {
        Some(c) => c.summary(),
        None => owned("unknown"),
    };
    let warning = if app.run_mode() == RunMode::Live {
        text_line("LIVE MODE WILL OVERWRITE THE SELECTED TARGET.", Tone::Heading)
    } else {
        text_line("Mock mode will simulate the install without writing storage.", Tone::Plain)
    };
    let r = vec![
        text_line("Ready to install", Tone::Heading),
        text_line("", Tone::Plain),
        labeled_line("Image: ", image),
        labeled_line("Target: ", target),
        labeled_line("Path: ", path),
        labeled_line("RAM: ", ram),
        text_line("", Tone::Plain),
        text_line("TOBI streams images - the full image does not need to fit in RAM.", Tone::Plain),
        text_line("", Tone::Plain),
        warning,
        text_line("", Tone::Plain),
        text_line("Press Enter to start. Press Backspace to choose a different target.", Tone::Plain),
    ];
    assert(lines_view(r@) =~= confirm_lines_of(v, available));
    r
}

// Lists and details.

/// One entry of a list: its lines, and whether it is a category bar.
#[derive(Debug)]
pub struct ListRow {
    pub lines: Vec<TextLine>,
    pub category: bool,
}

impl View for ListRow {
    type V = (Seq<LineView>, bool);

    open spec fn view(&self) -> (Seq<LineView>, bool) {
        (lines_view(self.lines@), self.category)
    }
}

/// Rows as values.
pub open spec fn rows_view(rows: Seq<ListRow>) -> Seq<(Seq<LineView>, bool)> {
    crate::sort::views(rows)
}

fn push_row(rows: &mut Vec<ListRow>, row: ListRow)
    ensures
        rows_view(final(rows)@) == rows_view(old(rows)@).push(row@),
{
    rows.push(row);
    assert(rows_view(rows@) =~= rows_view(old(rows)@).push(row@));
}

/// The root row of a target: a marker telling whether it has partitions and
/// whether they are shown, its name, then its kind, size and path.
pub open spec fn target_row_of(t: TargetView, expanded: bool) -> (Seq<LineView>, bool) {
    let marker = if t.partitions.len() == 0 {
        "   "@
    } else if expanded {
        "[-]"@
    } else {
        "[+]"@
    };
    (
        seq![
            seq![(marker + " "@, Tone::Plain), (t.name, Tone::Bold)],
            one(
                "    "@ + kind_label(t.kind) + "  "@ + format_bytes_text(t.size_bytes) + "  "@ + t.path,
                Tone::Plain,
            ),
        ],
        false,
    )
}

/// The row of a shown partition.
pub open spec fn partition_row_of(p: PartitionView) -> (Seq<LineView>, bool) {
    (
        seq![
            seq![("  - "@, Tone::Plain), (p.name, Tone::Bold)],
            one("    partition  "@ + format_bytes_text(p.size_bytes) + "  "@ + p.path, Tone::Plain),
        ],
        false,
    )
}

/// The rows of the partitions of a target.
pub open spec fn partition_rows_of(ps: Seq<PartitionView>) -> Seq<(Seq<LineView>, bool)>
    decreases ps.len(),
{
    if ps.len() == 0 {
        Seq::empty()
    } else {
        partition_rows_of(ps.drop_last()).push(partition_row_of(ps.last()))
    }
}

/// The rows of the target list: each target, followed by its partitions
/// when they are shown.
pub open spec fn target_rows_of(ts: Seq<TargetView>, expanded: Set<Seq<char>>) -> Seq<(Seq<LineView>, bool)>
    decreases ts.len(),
{
    if ts.len() == 0 {
        Seq::empty()
    } else {
        let t = ts.last();
        let shown = expanded.contains(t.id);
        target_rows_of(ts.drop_last(), expanded).push(target_row_of(t, shown)) + if shown {
            partition_rows_of(t.partitions)
        } else {
            Seq::empty()
        }
    }
}

fn target_row(t: &InstallTarget, expanded: bool) -> (r: ListRow)
    ensures
        r@ == target_row_of(t@, expanded),
{
    let marker = if t.partitions.len() == 0 {
        "   "
    } else if expanded {
        "[-]"
    } else {
        "[+]"
    };
    let mut m = owned(marker);
    push_str(&mut m, " ");
    let mut detail = owned("    ");
    push_str(&mut detail, t.kind.label());
    push_str(&mut detail, "  ");
    let size = format_bytes(t.size_bytes);
    push_str(&mut detail, size.as_str());
    push_str(&mut detail, "  ");
    push_str(&mut detail, t.path.as_str());
    let first = line_from(vec![Piece { text: m, tone: Tone::Plain }, Piece { text: t.name.clone(), tone: Tone::Bold }]);
    let r = ListRow { lines: vec![first, line_of(detail, Tone::Plain)], category: false };
    assert(r@.0[0] =~= target_row_of(t@, expanded).0[0]);
    assert(r@ =~~= target_row_of(t@, expanded));
    r
}

fn push_partition_rows(rows: &mut Vec<ListRow>, t: &InstallTarget)
    ensures
        rows_view(final(rows)@) == rows_view(old(rows)@) + partition_rows_of(t@.partitions),
{
    let ghost ps = t@.partitions;
    let ghost start = rows_view(rows@);
    let mut i: usize = 0;
    assert(partition_rows_of(ps.take(0)) =~= Seq::<(Seq<LineView>, bool)>::empty());
    assert(start + Seq::<(Seq<LineView>, bool)>::empty() =~= start);
    while i < t.partitions.len()
        invariant
            i <= t.partitions@.len(),
            ps == t@.partitions,
            ps.len() == t.partitions@.len(),
            rows_view(rows@) == start + partition_rows_of(ps.take(i as int)),
        decreases t.partitions@.len() - i,
    {
        assert(ps.take(i + 1).drop_last() =~= ps.take(i as int));
        let p = &t.partitions[i];
        assert(ps[i as int] == p@);
        let mut second = owned("    partition  ");
        let size = format_bytes(p.size_bytes);
        push_str(&mut second, size.as_str());
        push_str(&mut second, "  ");
        push_str(&mut second, p.path.as_str());
        let first = line_from(vec![piece("  - ", Tone::Plain), Piece { text: p.name.clone(), tone: Tone::Bold }]);
        let row = ListRow { lines: vec![first, line_of(second, Tone::Plain)], category: false };
        assert(row@.0[0] =~= partition_row_of(p@).0[0]);
        assert(row@ =~~= partition_row_of(p@));
        push_row(rows, row);
        assert(start + partition_rows_of(ps.take(i + 1)) =~= (start + partition_rows_of(ps.take(i as int))).push(
            partition_row_of(ps[i as int]),
        ));
        i = i + 1;
    }
    assert(ps.take(ps.len() as int) =~= ps);
}

/// The number of rows the first `n` targets take.
pub open spec fn target_rows_before(ts: Seq<TargetView>, expanded: Set<Seq<char>>, n: int) -> nat {
    target_rows_of(ts.take(n), expanded).len()
}

/// The rows of the target list and the row of the target under the cursor
/// (see `target_rows_of`).
pub fn target_list_items(app: &App) -> (r: (Vec<ListRow>, Option<usize>))
    ensures
        rows_view(r.0@) == target_rows_of(app@.devices, app@.expanded),
        r.1 == if app@.target_index < app@.devices.len() {
            Some(target_rows_before(app@.devices, app@.expanded, app@.target_index as int) as usize)
        } else {
            None::<usize>
        },
{
    let ghost v = app@;
    let targets = app.devices();
    let mut rows: Vec<ListRow> = Vec::new();
    let mut selected: Option<usize> = None;
    let mut i: usize = 0;
    assert(v.devices.take(0) =~= Seq::<TargetView>::empty());
    while i < targets.len()
        invariant
            i <= targets@.len(),
            app@ == v,
            v.devices == crate::device::targets_view(targets@),
            rows_view(rows@) == target_rows_of(v.devices.take(i as int), v.expanded),
            selected == if v.target_index < i {
                Some(target_rows_before(v.devices, v.expanded, v.target_index as int) as usize)
            } else {
                None::<usize>
            },
        decreases targets@.len() - i,
    {
        assert(v.devices.take(i + 1).drop_last() =~= v.devices.take(i as int));
        let t = &targets[i];
        assert(v.devices[i as int] == t@);
        if i == app.target_index() {
            assert(rows_view(rows@).len() == rows@.len());
            selected = Some(rows.len());
        }
        let shown = app.is_target_expanded(t.id.as_str());
        push_row(&mut rows, target_row(t, shown));
        if shown {
            push_partition_rows(&mut rows, t);
        } else {
            assert(rows_view(rows@) =~= rows_view(rows@) + Seq::<(Seq<LineView>, bool)>::empty());
        }
        proof {
            assert(v.devices.take(i + 1).last() == t@);
            assert(rows_view(rows@) =~= target_rows_of(v.devices.take(i + 1), v.expanded));
            if v.target_index < i {
                assert(v.devices.take(v.target_index as int) =~= v.devices.take(i + 1).take(v.target_index as int));
            }
        }
        i = i + 1;
    }
    assert(v.devices.take(v.devices.len() as int) =~= v.devices);
    (rows, selected)
}

/// The details of a target: its fields, the warning, and its partitions
/// when they are shown.
pub open spec fn target_details_of(t: TargetView, expanded: bool) -> Seq<LineView> {
    let count = t.partitions.len();
    let state = if count == 0 {
        "none"@
    } else if expanded {
        decimal(count) + " shown"@
    } else {
        decimal(count) + " hidden"@
    };
    seq![
        labeled("ID: "@, t.id),
        labeled("Name: "@, t.name),
        labeled("Path: "@, t.path),
        labeled("Type: "@, kind_label(t.kind)),
        labeled("Size: "@, format_bytes_text(t.size_bytes)),
        labeled(
            "Removable: "@,
            if t.removable {
                "yes"@
            } else {
                "no"@
            },
        ),
        labeled("Partitions: "@, state),
        one(""@, Tone::Plain),
        one(
            match t.warning {
                Some(w) => w,
                None => "All data on this target will be destroyed."@,
            },
            Tone::Plain,
        ),
    ] + if count > 0 {
        seq![
            one(""@, Tone::Plain),
            one(
                if expanded {
                    "Left hides partitions. The selected install target remains the whole device."@
                } else {
                    "Right shows partitions. The selected install target remains the whole device."@
                },
                Tone::Plain,
            ),
        ] + if expanded {
            seq![one(""@, Tone::Plain)] + partition_lines_of(t.partitions)
        } else {
            Seq::empty()
        }
    } else {
        Seq::empty()
    }
}

/// One line per partition: name, size and path.
pub open spec fn partition_lines_of(ps: Seq<PartitionView>) -> Seq<LineView>
    decreases ps.len(),
{
    if ps.len() == 0 {
        Seq::empty()
    } else {
        partition_lines_of(ps.drop_last()).push(
            one(ps.last().name + "  "@ + format_bytes_text(ps.last().size_bytes) + "  "@ + ps.last().path, Tone::Plain),
        )
    }
}

/// The details of a target (see `target_details_of`).
pub fn target_details(app: &App, target: &InstallTarget) -> (r: Vec<TextLine>)
    ensures
        lines_view(r@) == target_details_of(target@, app@.expanded.contains(target@.id)),
{
    let ghost t = target@;
    let expanded = app.is_target_expanded(target.id.as_str());
    let count = target.partitions.len();
    let state = if count == 0 {
        owned("none")
    } else {
        let mut s = String::new();
        push_decimal(&mut s, count as u64);
        push_str(&mut s, if expanded { " shown" } else { " hidden" });
        s
    };
    let mut lines: Vec<TextLine> = Vec::new();
    push_line(&mut lines, labeled_line("ID: ", target.id.clone()));
    push_line(&mut lines, labeled_line("Name: ", target.name.clone()));
    push_line(&mut lines, labeled_line("Path: ", target.path.clone()));
    push_line(&mut lines, labeled_line("Type: ", owned(target.kind.label())));
    push_line(&mut lines, labeled_line("Size: ", format_bytes(target.size_bytes)));
    push_line(&mut lines, labeled_line("Removable: ", owned(if target.removable { "yes" } else { "no" })));
    push_line(&mut lines, labeled_line("Partitions: ", state));
    push_line(&mut lines, text_line("", Tone::Plain));
    let warning = match &target.warning {
        Some(w) => w.clone(),
        None => owned("All data on this target will be destroyed."),
    };
    push_line(&mut lines, line_of(warning, Tone::Plain));
    let ghost head = lines_view(lines@);
    if count > 0 {
        push_line(&mut lines, text_line("", Tone::Plain));
        push_line(
            &mut lines,
            text_line(
                if expanded {
                    "Left hides partitions. The selected install target remains the whole device."
                } else {
                    "Right shows partitions. The selected install target remains the whole device."
                },
                Tone::Plain,
            ),
        );
        if expanded {
            push_line(&mut lines, text_line("", Tone::Plain));
            let ghost ps = t.partitions;
            let ghost start = lines_view(lines@);
            let mut i: usize = 0;
            assert(partition_lines_of(ps.take(0)) =~= Seq::<LineView>::empty());
            assert(start + Seq::<LineView>::empty() =~= start);
            while i < count
                invariant
                    count == target.partitions@.len(),
                    i <= count,
                    ps == target@.partitions,
                    ps.len() == count,
                    lines_view(lines@) == start + partition_lines_of(ps.take(i as int)),
                decreases count - i,
            {
                assert(ps.take(i + 1).drop_last() =~= ps.take(i as int));
                let p = &target.partitions[i];
                assert(ps[i as int] == p@);
                let mut text = p.name.clone();
                push_str(&mut text, "  ");
                let size = format_bytes(p.size_bytes);
                push_str(&mut text, size.as_str());
                push_str(&mut text, "  ");
                push_str(&mut text, p.path.as_str());
                push_line(&mut lines, line_of(text, Tone::Plain));
                assert(start + partition_lines_of(ps.take(i + 1)) =~= (start + partition_lines_of(
                    ps.take(i as int),
                )).push(one(ps[i as int].name + "  "@ + format_bytes_text(ps[i as int].size_bytes) + "  "@ + ps[i as int].path, Tone::Plain)));
                i = i + 1;
            }
            assert(ps.take(ps.len() as int) =~= ps);
        }
    }
    assert(lines_view(lines@) =~= target_details_of(t, expanded));
    lines
}

/// `str::to_uppercase`: the text in upper case by Unicode's case mapping.
/// Named: the case tables are Unicode's.
pub uninterp spec fn upper_text(s: Seq<char>) -> Seq<char>;

/// `str::to_uppercase`.
#[verifier::external_body]
fn to_uppercase_of(s: &str) -> (r: String)
    ensures
        r@ == upper_text(s@),
{
    s.to_uppercase()
}

/// The bar that opens a category in the image list.
pub open spec fn category_row_of(category: Seq<char>) -> (Seq<LineView>, bool) {
    (seq![one(" "@ + upper_text(category) + " "@, Tone::Category)], true)
}

/// An image's row: its name with a badge when recommended, then its
/// version, channel and format.
pub open spec fn image_row_of(e: ImageView) -> (Seq<LineView>, bool) {
    (
        seq![
            seq![(e.name, Tone::Bold)] + if e.recommended {
                seq![("  "@, Tone::Plain), ("Recommended"@, Tone::Badge)]
            } else {
                Seq::empty()
            },
            one(e.version + "  "@ + e.channel + "  "@ + format_label(e.format), Tone::Plain),
        ],
        false,
    )
}

/// The rows of the image list: a bar before each run of images of one
/// category, then the images.
pub open spec fn image_rows_of(s: Seq<ImageView>) -> Seq<(Seq<LineView>, bool)>
    decreases s.len(),
{
    if s.len() == 0 {
        Seq::empty()
    } else {
        let rest = image_rows_of(s.drop_last());
        let opens = s.len() == 1 || category_label_of(s[s.len() - 2]) != category_label_of(s.last());
        (if opens {
            rest.push(category_row_of(category_label_of(s.last())))
        } else {
            rest
        }).push(image_row_of(s.last()))
    }
}

/// The rows of the image list and the row of the image under the cursor
/// (see `image_rows_of`).
pub fn image_list_items(app: &App) -> (r: (Vec<ListRow>, Option<usize>))
    ensures
        rows_view(r.0@) == image_rows_of(app@.catalog.images),
        r.1 == if app@.image_index < app@.catalog.images.len() {
            Some((image_rows_of(app@.catalog.images.take(app@.image_index as int + 1)).len() - 1) as usize)
        } else {
            None::<usize>
        },
{
    let ghost v = app@;
    let images = &app.catalog().images;
    let ghost s = v.catalog.images;
    let mut rows: Vec<ListRow> = Vec::new();
    let mut selected: Option<usize> = None;
    let mut i: usize = 0;
    assert(s.take(0) =~= Seq::<ImageView>::empty());
    while i < images.len()
        invariant
            i <= images@.len(),
            app@ == v,
            s == v.catalog.images,
            s == crate::manifest::images_view(images@),
            rows_view(rows@) == image_rows_of(s.take(i as int)),
            selected == if v.image_index < i {
                Some((image_rows_of(s.take(v.image_index as int + 1)).len() - 1) as usize)
            } else {
                None::<usize>
            },
        decreases images@.len() - i,
    {
        let e = &images[i];
        assert(s[i as int] == e@);
        assert(s.take(i + 1).drop_last() =~= s.take(i as int));
        assert(s.take(i + 1).last() == e@);
        let opens = if i == 0 {
            true
        } else {
            assert(s.take(i + 1)[i - 1] == images@[i - 1]@);
            !crate::text::str_eq(images[i - 1].category_label(), e.category_label())
        };
        if opens {
            let mut bar = owned(" ");
            let upper = to_uppercase_of(e.category_label());
            push_str(&mut bar, upper.as_str());
            push_str(&mut bar, " ");
            let row = ListRow { lines: vec![line_of(bar, Tone::Category)], category: true };
            assert(row@ =~~= category_row_of(category_label_of(e@)));
            push_row(&mut rows, row);
        }
        if i == app.image_index() {
            assert(rows_view(rows@).len() == rows@.len());
            selected = Some(rows.len());
        }
        let mut first: Vec<Piece> = vec![Piece { text: e.name.clone(), tone: Tone::Bold }];
        if e.recommended {
            first.push(piece("  ", Tone::Plain));
            first.push(piece("Recommended", Tone::Badge));
        }
        let mut second = e.version.clone();
        push_str(&mut second, "  ");
        push_str(&mut second, e.channel.as_str());
        push_str(&mut second, "  ");
        push_str(&mut second, e.format.label());
        let row = ListRow { lines: vec![line_from(first), line_of(second, Tone::Plain)], category: false };
        assert(row@.0[0] =~= image_row_of(e@).0[0]);
        assert(row@ =~~= image_row_of(e@));
        push_row(&mut rows, row);
        proof {
            assert(rows_view(rows@) =~= image_rows_of(s.take(i + 1)));
            if v.image_index < i {
            }
        }
        i = i + 1;
    }
    assert(s.take(s.len() as int) =~= s);
    (rows, selected)
}

/// The address of the TI Processor SDK documentation.
pub open spec fn sdk_docs_url() -> Seq<char> {
    "https://texasinstruments.github.io/processor-sdk-doc/"@
}

/// The address of the TI processors page.
pub open spec fn processors_url() -> Seq<char> {
    "https://www.ti.com/sitara"@
}

/// Lines of a drawn QR code.
pub open spec fn code_lines(k: Seq<Seq<char>>) -> Seq<LineView>
    decreases k.len(),
{
    if k.len() == 0 {
        Seq::empty()
    } else {
        code_lines(k.drop_last()).push(one(k.last(), Tone::Code))
    }
}

fn push_code_lines(lines: &mut Vec<TextLine>, k: &Vec<String>)
    ensures
        lines_view(final(lines)@) == lines_view(old(lines)@) + code_lines(crate::manifest::strs(*k)),
{
    let ghost ks = crate::manifest::strs(*k);
    let ghost start = lines_view(lines@);
    let mut i: usize = 0;
    assert(code_lines(ks.take(0)) =~= Seq::<LineView>::empty());
    assert(start + Seq::<LineView>::empty() =~= start);
    while i < k.len()
        invariant
            i <= k@.len(),
            ks == crate::manifest::strs(*k),
            lines_view(lines@) == start + code_lines(ks.take(i as int)),
        decreases k@.len() - i,
    {
        assert(ks.take(i + 1).drop_last() =~= ks.take(i as int));
        assert(ks[i as int] == k@[i as int]@);
        push_line(lines, line_of(k[i].clone(), Tone::Code));
        assert(start + code_lines(ks.take(i + 1)) =~= (start + code_lines(ks.take(i as int))).push(
            one(ks[i as int], Tone::Code),
        ));
        i = i + 1;
    }
    assert(ks.take(ks.len() as int) =~= ks);
}

/// The QR code of a link that fits `width` by `height`, when there is one.
pub open spec fn fitted_qr(url: Seq<char>, width: u16, height: u16) -> Option<Seq<Seq<char>>> {
    match crate::qr::qr_text_lines(url) {
        Some(drawn) => crate::qr::qr_fit_of(drawn, width, height),
        None => None,
    }
}

/// The QR section under the image details: only in a panel at least 48 by
/// 30, when the SDK docs code fits in its width less 4 and half its height.
pub open spec fn qr_section_of(width: u16, height: u16) -> Seq<LineView> {
    if width < 48 || height < 30 {
        Seq::empty()
    } else {
        match fitted_qr(sdk_docs_url(), (width - 4) as u16, height / 2) {
            Some(k) => seq![one(""@, Tone::Plain), one("Scan for TI Processor SDK docs:"@, Tone::Label)]
                + code_lines(k),
            None => Seq::empty(),
        }
    }
}

/// The details of a catalog image in a panel `width` by `height`, with the
/// lite guard as given and `available` bytes of RAM free (when known).
pub open spec fn image_details_of(
    e: ImageView,
    lite_guard: bool,
    available: Option<u64>,
    width: u16,
    height: u16,
) -> Seq<LineView> {
    seq![
        labeled("Name: "@, e.name),
        labeled("Category: "@, category_label_of(e)),
        labeled("Version: "@, e.version),
        labeled("Channel: "@, e.channel),
        labeled("Release: "@, e.release_date),
        labeled("Format: "@, format_label(e.format)),
        labeled("Download: "@, format_bytes_text(e.image_download_size)),
        labeled("Written: "@, format_bytes_text(e.extract_size)),
        labeled("RAM: "@, memory_summary(memory_check_of(e.format, lite_guard, available))),
        one(""@, Tone::Plain),
        one(
            "TOBI streams images directly to target media - the full image is not loaded into RAM."@,
            Tone::Plain,
        ),
        one(""@, Tone::Plain),
        one(e.description, Tone::Plain),
        one(""@, Tone::Plain),
        labeled("URL: "@, e.url),
        one(""@, Tone::Plain),
        labeled("TI SDK docs: "@, sdk_docs_url()),
    ] + qr_section_of(width, height)
}

/// The details of a catalog image (see `image_details_of`).
pub fn image_details(
    image: &ImageEntry,
    lite_guard: bool,
    available: Option<u64>,
    width: u16,
    height: u16,
) -> (r: Vec<TextLine>)
    ensures
        lines_view(r@) == image_details_of(image@, lite_guard, available, width, height),
{
    let check = crate::memory::check_image_memory(image, lite_guard, available);
    let mut lines = vec![
        labeled_line("Name: ", image.name.clone()),
        labeled_line("Category: ", owned(image.category_label())),
        labeled_line("Version: ", image.version.clone()),
        labeled_line("Channel: ", image.channel.clone()),
        labeled_line("Release: ", image.release_date.clone()),
        labeled_line("Format: ", owned(image.format.label())),
        labeled_line("Download: ", format_bytes(image.image_download_size)),
        labeled_line("Written: ", format_bytes(image.extract_size)),
        labeled_line("RAM: ", check.summary()),
        text_line("", Tone::Plain),
        text_line(
            "TOBI streams images directly to target media - the full image is not loaded into RAM.",
            Tone::Plain,
        ),
        text_line("", Tone::Plain),
        line_of(image.description.clone(), Tone::Plain),
        text_line("", Tone::Plain),
        labeled_line("URL: ", image.url.clone()),
        text_line("", Tone::Plain),
        labeled_line("TI SDK docs: ", owned("https://texasinstruments.github.io/processor-sdk-doc/")),
    ];
    let ghost head = lines_view(lines@);
    if !(width < 48 || height < 30) {
        match crate::qr::render_qr("https://texasinstruments.github.io/processor-sdk-doc/", width - 4, height / 2) {
            Some(k) => {
                push_line(&mut lines, text_line("", Tone::Plain));
                push_line(&mut lines, text_line("Scan for TI Processor SDK docs:", Tone::Label));
                push_code_lines(&mut lines, &k);
            },
            None => {},
        }
    }
    assert(lines_view(lines@) =~= image_details_of(image@, lite_guard, available, width, height));
    lines
}

/// The rows of the custom image list: each image's name, format and size,
/// or a note that none was found.
pub open spec fn custom_rows_of(cs: Seq<CustomImageView>) -> Seq<(Seq<LineView>, bool)> {
    if cs.len() == 0 {
        seq![
            (
                seq![one("No custom images found"@, Tone::Bold), one("Attach media and press R to rescan."@, Tone::Plain)],
                false,
            ),
        ]
    } else {
        Seq::new(
            cs.len(),
            |i: int|
                (
                    seq![
                        one(cs[i].name, Tone::Bold),
                        one(format_label(cs[i].format) + "  "@ + format_bytes_text(cs[i].size_bytes), Tone::Plain),
                    ],
                    false,
                ),
        )
    }
}

/// The rows of the custom image list and the row under the cursor (see
/// `custom_rows_of`).
pub fn custom_image_items(app: &App) -> (r: (Vec<ListRow>, Option<usize>))
    ensures
        rows_view(r.0@) == custom_rows_of(app@.custom_images),
        r.1 == if app@.custom_images.len() == 0 {
            None::<usize>
        } else {
            Some(app@.custom_image_index as usize)
        },
{
    let ghost v = app@;
    let images = app.custom_images();
    let mut rows: Vec<ListRow> = Vec::new();
    if images.len() == 0 {
        let row = ListRow {
            lines: vec![
                text_line("No custom images found", Tone::Bold),
                text_line("Attach media and press R to rescan.", Tone::Plain),
            ],
            category: false,
        };
        assert(v.custom_images.len() == 0);
        assert(row@.0 =~= custom_rows_of(v.custom_images)[0].0);
        push_row(&mut rows, row);
        assert(rows_view(rows@) =~= custom_rows_of(v.custom_images));
        return (rows, None);
    }
    let ghost want = custom_rows_of(v.custom_images);
    let mut i: usize = 0;
    while i < images.len()
        invariant
            i <= images@.len(),
            v.custom_images == crate::sort::views(images@),
            images@.len() > 0,
            want == custom_rows_of(v.custom_images),
            rows_view(rows@) == want.take(i as int),
        decreases images@.len() - i,
    {
        let c = &images[i];
        assert(v.custom_images[i as int] == c@);
        let mut second = owned(c.format.label());
        push_str(&mut second, "  ");
        let size = format_bytes(c.size_bytes);
        push_str(&mut second, size.as_str());
        let row = ListRow { lines: vec![line_of(c.name.clone(), Tone::Bold), line_of(second, Tone::Plain)], category: false };
        assert(row@ =~~= want[i as int]);
        push_row(&mut rows, row);
        assert(rows_view(rows@) =~= want.take(i + 1));
        i = i + 1;
    }
    assert(want.take(want.len() as int) =~= want);
    (rows, Some(app.custom_image_index()))
}

/// The details of the custom image under the cursor, or where images are
/// looked for when there is none.
pub open spec fn custom_details_of(v: AppView) -> Seq<LineView> {
    if v.custom_image_index < v.custom_images.len() {
        let c = v.custom_images[v.custom_image_index as int];
        seq![
            labeled("Name: "@, c.name),
            labeled("Format: "@, format_label(c.format)),
            labeled("Size: "@, format_bytes_text(c.size_bytes)),
            labeled("Path: "@, c.path),
            one(""@, Tone::Plain),
            one(
                "This image will be read from attached storage and flashed to the target media you choose next."@,
                Tone::Plain,
            ),
        ]
    } else {
        seq![
            one("No supported image files found."@, Tone::Heading),
            one(""@, Tone::Plain),
            one("Supported file types:"@, Tone::Plain),
            one(".wic.xz, .img.xz, .wic.zst, .img.zst"@, Tone::Plain),
            one(".wic.gz, .img.gz, .wic, .img, .raw, .bin"@, Tone::Plain),
            one(""@, Tone::Plain),
            one("Scan roots: /Volumes on macOS; /run/media, /media, and /mnt on Linux."@, Tone::Plain),
        ]
    }
}

/// The details of the custom image under the cursor (see
/// `custom_details_of`).
pub fn custom_image_details(app: &App) -> (r: Vec<TextLine>)
    ensures
        lines_view(r@) == custom_details_of(app@),
{
    let ghost v = app@;
    let r = match app.selected_custom_image() {
        Some(c) => vec![
            labeled_line("Name: ", c.name.clone()),
            labeled_line("Format: ", owned(c.format.label())),
            labeled_line("Size: ", format_bytes(c.size_bytes)),
            labeled_line("Path: ", c.path.clone()),
            text_line("", Tone::Plain),
            text_line(
                "This image will be read from attached storage and flashed to the target media you choose next.",
                Tone::Plain,
            ),
        ],
        None => vec![
            text_line("No supported image files found.", Tone::Heading),
            text_line("", Tone::Plain),
            text_line("Supported file types:", Tone::Plain),
            text_line(".wic.xz, .img.xz, .wic.zst, .img.zst", Tone::Plain),
            text_line(".wic.gz, .img.gz, .wic, .img, .raw, .bin", Tone::Plain),
            text_line("", Tone::Plain),
            text_line("Scan roots: /Volumes on macOS; /run/media, /media, and /mnt on Linux.", Tone::Plain),
        ],
    };
    assert(lines_view(r@) =~= custom_details_of(v));
    r
}

/// The header: the product and mode, the board, the time and address.
pub open spec fn header_lines_of(v: AppView) -> Seq<LineView> {
    seq![
        seq![
            ("TOBI"@, Tone::Badge),
            ("  "@, Tone::Plain),
            if v.run_mode == RunMode::Live {
                ("LIVE"@, Tone::Red)
            } else {
                ("MOCK"@, Tone::Teal)
            },
        ],
        seq![("Detected board: "@, Tone::Label), (v.board.name, Tone::Strong)],
        seq![
            ("Time: "@, Tone::Label),
            (v.system_status.time, Tone::White),
            (" | "@, Tone::Plain),
            ("IP: "@, Tone::Label),
            (v.system_status.ip, Tone::White),
        ],
    ]
}

/// The header (see `header_lines_of`).
pub fn header_lines(app: &App) -> (r: Vec<TextLine>)
    ensures
        lines_view(r@) == header_lines_of(app@),
{
    let ghost v = app@;
    let mode = if app.run_mode() == RunMode::Live {
        piece("LIVE", Tone::Red)
    } else {
        piece("MOCK", Tone::Teal)
    };
    let status = app.system_status();
    let r = vec![
        line_from(vec![piece("TOBI", Tone::Badge), piece("  ", Tone::Plain), mode]),
        line_from(
            vec![piece("Detected board: ", Tone::Label), Piece { text: app.board().name.clone(), tone: Tone::Strong }],
        ),
        line_from(
            vec![
                piece("Time: ", Tone::Label),
                Piece { text: status.time.clone(), tone: Tone::White },
                piece(" | ", Tone::Plain),
                piece("IP: ", Tone::Label),
                Piece { text: status.ip.clone(), tone: Tone::White },
            ],
        ),
    ];
    assert(r@[0]@ =~= header_lines_of(v)[0]);
    assert(r@[1]@ =~= header_lines_of(v)[1]);
    assert(r@[2]@ =~= header_lines_of(v)[2]);
    assert(lines_view(r@) =~= header_lines_of(v));
    r
}

/// How the welcome panel is laid out inside its border: beside a QR panel
/// when it is at least 86 by 19, compact when it is lower than 16 without
/// one.
pub open spec fn welcome_layout_of(width: u16, height: u16) -> (bool, bool) {
    let split = width >= 86 && height >= 19;
    (split, !split && height < 16)
}

/// How the welcome panel is laid out (see `welcome_layout_of`).
pub fn welcome_layout(width: u16, height: u16) -> (r: (bool, bool))
    ensures
        r == welcome_layout_of(width, height),
{
    let split = width >= 86 && height >= 19;
    (split, !split && height < 16)
}

/// The welcome text, short when `compact`.
pub open spec fn welcome_lines_of(v: AppView, compact: bool) -> Seq<LineView> {
    seq![
        one("Welcome to TOBI"@, Tone::Heading),
        one("Texas Instruments Out of Box Installer"@, Tone::Strong),
        one(""@, Tone::Plain),
        seq![("Board: "@, Tone::Label), (v.board.name, Tone::Strong)],
        labeled("Ethernet: "@, v.system_status.ethernet),
        one(""@, Tone::Plain),
    ] + (if compact {
        seq![
            one("Flash an OS image from the internet or local media."@, Tone::Plain),
            one("Plug in Ethernet and a keyboard to proceed."@, Tone::Plain),
            one("No network? Attach FAT32 USB media with a compatible image."@, Tone::Plain),
        ]
    } else {
        seq![
            one("Pick and flash a fresh OS image from the internet,"@, Tone::Plain),
            one("or install a compatible local image from attached media."@, Tone::Plain),
            one(""@, Tone::Plain),
            one("Please plug in an Ethernet cable and keyboard to proceed."@, Tone::Plain),
            one("TOBI can be used with an external display or from the serial console."@, Tone::Plain),
            one(""@, Tone::Plain),
            one("If no network is available, plug in a FAT32-formatted USB drive"@, Tone::Plain),
            one("containing compatible image files and flash that way."@, Tone::Plain),
        ]
    }) + seq![
        one(""@, Tone::Plain),
        labeled("TI processors: "@, processors_url()),
        one(""@, Tone::Plain),
        one("Press Enter to continue."@, Tone::Label),
    ]
}

/// The welcome text (see `welcome_lines_of`).
pub fn welcome_lines(app: &App, compact: bool) -> (r: Vec<TextLine>)
    ensures
        lines_view(r@) == welcome_lines_of(app@, compact),
{
    let ghost v = app@;
    let mut lines = vec![
        text_line("Welcome to TOBI", Tone::Heading),
        text_line("Texas Instruments Out of Box Installer", Tone::Strong),
        text_line("", Tone::Plain),
        line_from(vec![piece("Board: ", Tone::Label), Piece { text: app.board().name.clone(), tone: Tone::Strong }]),
        labeled_line("Ethernet: ", app.system_status().ethernet.clone()),
        text_line("", Tone::Plain),
    ];
    assert(lines_view(lines@)[3] =~= welcome_lines_of(v, compact)[3]);
    if compact {
        push_line(&mut lines, text_line("Flash an OS image from the internet or local media.", Tone::Plain));
        push_line(&mut lines, text_line("Plug in Ethernet and a keyboard to proceed.", Tone::Plain));
        push_line(&mut lines, text_line("No network? Attach FAT32 USB media with a compatible image.", Tone::Plain));
    } else {
        push_line(&mut lines, text_line("Pick and flash a fresh OS image from the internet,", Tone::Plain));
        push_line(&mut lines, text_line("or install a compatible local image from attached media.", Tone::Plain));
        push_line(&mut lines, text_line("", Tone::Plain));
        push_line(&mut lines, text_line("Please plug in an Ethernet cable and keyboard to proceed.", Tone::Plain));
        push_line(
            &mut lines,
            text_line("TOBI can be used with an external display or from the serial console.", Tone::Plain),
        );
        push_line(&mut lines, text_line("", Tone::Plain));
        push_line(&mut lines, text_line("If no network is available, plug in a FAT32-formatted USB drive", Tone::Plain));
        push_line(&mut lines, text_line("containing compatible image files and flash that way.", Tone::Plain));
    }
    push_line(&mut lines, text_line("", Tone::Plain));
    push_line(&mut lines, labeled_line("TI processors: ", owned("https://www.ti.com/sitara")));
    push_line(&mut lines, text_line("", Tone::Plain));
    push_line(&mut lines, text_line("Press Enter to continue.", Tone::Label));
    assert(lines_view(lines@) =~= welcome_lines_of(v, compact));
    lines
}

/// A panel with a link's QR code: a title, the code when it fits in the
/// panel's width less 2 and height less 6, a caption and the link.
pub open spec fn qr_panel_of(title: Seq<char>, url: Seq<char>, caption: Seq<char>, width: u16, height: u16) -> Seq<
    LineView,
> {
    let w = if width >= 2 {
        (width - 2) as u16
    } else {
        0u16
    };
    let h = if height >= 6 {
        (height - 6) as u16
    } else {
        0u16
    };
    seq![one(title, Tone::Label), one(""@, Tone::Plain)] + (match fitted_qr(url, w, h) {
        Some(k) => code_lines(k) + seq![one(""@, Tone::Plain)],
        None => Seq::empty(),
    }) + seq![one(caption, Tone::Plain), one(url, Tone::Plain)]
}

/// A panel with a link's QR code (see `qr_panel_of`).
pub fn qr_panel_lines(title: &str, url: &str, caption: &str, width: u16, height: u16) -> (r: Vec<TextLine>)
    ensures
        lines_view(r@) == qr_panel_of(title@, url@, caption@, width, height),
{
    let w: u16 = if width >= 2 {
        width - 2
    } else {
        0
    };
    let h: u16 = if height >= 6 {
        height - 6
    } else {
        0
    };
    let mut lines = vec![text_line(title, Tone::Label), text_line("", Tone::Plain)];
    match crate::qr::render_qr(url, w, h) {
        Some(k) => {
            push_code_lines(&mut lines, &k);
            push_line(&mut lines, text_line("", Tone::Plain));
        },
        None => {},
    }
    push_line(&mut lines, text_line(caption, Tone::Plain));
    push_line(&mut lines, text_line(url, Tone::Plain));
    assert(lines_view(lines@) =~= qr_panel_of(title@, url@, caption@, width, height));
    lines
}

/// One input field of the proxy screen: a marker when it is active, its
/// label, and its text padded to `width` between brackets.
pub open spec fn input_line_of(label: Seq<char>, value: Seq<char>, active: bool, width: nat) -> LineView {
    seq![
        if active {
            ("> "@, Tone::Heading)
        } else {
            ("  "@, Tone::Plain)
        },
        (label + ": "@, Tone::Label),
        ("["@, if active { Tone::Heading } else { Tone::Label }),
        (crate::console::input_display_of(value, width), if active { Tone::Field } else { Tone::IdleField }),
        ("]"@, if active { Tone::Heading } else { Tone::Label }),
    ]
}

/// The proxy screen: its title, the time field and its format, the proxy
/// field and an example, the keys, then why the catalog failed when a
/// warning is held.
pub open spec fn proxy_lines_of(v: AppView) -> Seq<LineView> {
    seq![
        one("Set Time and Configure Proxy"@, Tone::Heading),
        one(""@, Tone::Plain),
        input_line_of("UTC time"@, v.time_input, v.proxy_field == ProxyConfigField::Time, 19),
        one("Format: YYYY-MM-DD HH:MM:SS"@, Tone::Plain),
        one(""@, Tone::Plain),
        input_line_of("Proxy"@, v.proxy_input, v.proxy_field == ProxyConfigField::Proxy, 36),
        one("Example: http://proxy.example.com:8080"@, Tone::Plain),
        one(""@, Tone::Plain),
        one("Enter advances/retries. Up/Down switches fields. Esc keeps local images."@, Tone::Plain),
    ] + match v.warning {
        Some(w) => seq![one(""@, Tone::Plain), one("Catalog load failed:"@, Tone::Heading)] + plain_lines(
            crate::text::text_lines(w),
        ),
        None => Seq::empty(),
    }
}

fn input_line(label: &str, value: &str, active: bool, width: usize) -> (r: TextLine)
    ensures
        r@ == input_line_of(label@, value@, active, width as nat),
{
    let mut l = owned(label);
    push_str(&mut l, ": ");
    let shown = crate::console::serial_input_display(value, width);
    let r = line_from(
        vec![
            if active {
                piece("> ", Tone::Heading)
            } else {
                piece("  ", Tone::Plain)
            },
            Piece { text: l, tone: Tone::Label },
            piece("[", if active { Tone::Heading } else { Tone::Label }),
            Piece { text: shown, tone: if active { Tone::Field } else { Tone::IdleField } },
            piece("]", if active { Tone::Heading } else { Tone::Label }),
        ],
    );
    assert(r@ =~= input_line_of(label@, value@, active, width as nat));
    r
}

/// The proxy screen (see `proxy_lines_of`).
pub fn proxy_lines(app: &App) -> (r: Vec<TextLine>)
    ensures
        lines_view(r@) == proxy_lines_of(app@),
{
    let ghost v = app@;
    let time_active = app.proxy_config_field() == ProxyConfigField::Time;
    let mut lines = vec![
        text_line("Set Time and Configure Proxy", Tone::Heading),
        text_line("", Tone::Plain),
        input_line("UTC time", app.proxy_time_input(), time_active, 19),
        text_line("Format: YYYY-MM-DD HH:MM:SS", Tone::Plain),
        text_line("", Tone::Plain),
        input_line("Proxy", app.proxy_input(), !time_active, 36),
        text_line("Example: http://proxy.example.com:8080", Tone::Plain),
        text_line("", Tone::Plain),
        text_line("Enter advances/retries. Up/Down switches fields. Esc keeps local images.", Tone::Plain),
    ];
    proof {
        reveal_strlit("UTC time");
        reveal_strlit("Proxy");
    }
    assert(lines_view(lines@) =~= proxy_lines_of(v).subrange(0, 9));
    match app.warning() {
        Some(w) => {
            push_line(&mut lines, text_line("", Tone::Plain));
            push_line(&mut lines, text_line("Catalog load failed:", Tone::Heading));
            push_text_lines(&mut lines, w);
        },
        None => {},
    }
    assert(lines_view(lines@) =~= proxy_lines_of(v));
    lines
}

} // verus!
