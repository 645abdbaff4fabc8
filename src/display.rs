use crate::constant::{CHIP8_DISPLAY_HEIGHT, CHIP8_DISPLAY_WIDTH, MEMORY_SIZE};
use vstd::prelude::*;
use vstd::string::*;

verus! {

/// The pixel grid, row-major: `pixels[y][x]`.
pub type Pixels = [[bool; CHIP8_DISPLAY_WIDTH]; CHIP8_DISPLAY_HEIGHT];

/// What presents the grid and reads the keypad. A terminal and a window
/// implement it outside this library; the interpreter is generic over it.
pub trait DisplayBackend: Default {
    /// Presents the grid; must not change it.
    fn render(&mut self, pixels: &Pixels);

    /// The keys held now, each in `0..16`; does not block.
    fn read_keys(&mut self) -> Vec<u8>;

    /// Blocks until a key is pressed and returns it, in `0..16`.
    fn wait_for_key(&mut self) -> u8;

    /// Shows a line of trace text.
    fn log(&self, message: String);
}

/// Size in pixels of a window that shows the grid.
pub struct WindowSize {
    pub width: usize,
    pub height: usize,
}

/// The pixel grid and the backend that presents it.
pub struct Display<B: DisplayBackend> {
    pub pixels: Pixels,
    pub backend: B,
}

impl<B: DisplayBackend> Display<B> {
    /// A blank grid over `backend`.
    pub fn new(backend: B) -> (r: Self)
        ensures
            grid(r.pixels) == blank(),
            r.backend == backend,
    {
        let r = Display { pixels: [[false; CHIP8_DISPLAY_WIDTH]; CHIP8_DISPLAY_HEIGHT], backend };
        assert(grid(r.pixels) =~~= blank());
        r
    }

    /// Hands the grid to the backend to present.
    pub fn render(&mut self)
        ensures
            final(self).pixels == old(self).pixels,
    {
        self.backend.render(&self.pixels);
    }

    /// The keys the backend reports held.
    pub fn read_keys(&mut self) -> (r: Vec<u8>)
        ensures
            final(self).pixels == old(self).pixels,
    {
        self.backend.read_keys()
    }

    /// The next key the backend reports pressed.
    pub fn wait_for_key(&mut self) -> (r: u8)
        ensures
            final(self).pixels == old(self).pixels,
    {
        self.backend.wait_for_key()
    }

    /// Hands trace text to the backend.
    pub fn log(&self, message: String) {
        self.backend.log(message);
    }
}

/// The grid as rows of pixels.
pub open spec fn grid(p: Pixels) -> Seq<Seq<bool>> {
    p@.map_values(|row: [bool; CHIP8_DISPLAY_WIDTH]| row@)
}

/// A grid with every pixel off.
pub open spec fn blank() -> Seq<Seq<bool>> {
    Seq::new(CHIP8_DISPLAY_HEIGHT as nat, |y: int| Seq::new(CHIP8_DISPLAY_WIDTH as nat, |x: int| false))
}

/// Bit `m` of a sprite row, counted from the most significant bit.
pub open spec fn sprite_bit(row: u8, m: u8) -> bool {
    (row >> ((7 - m) as u8)) & 1 == 1
}

/// Sprite rows that land on the screen: the sprite is clipped at the bottom edge.
pub open spec fn drawn_rows(vy: u8, height: u8) -> int {
    let y0 = vy as int % CHIP8_DISPLAY_HEIGHT as int;
    if y0 + height > CHIP8_DISPLAY_HEIGHT {
        CHIP8_DISPLAY_HEIGHT - y0
    } else {
        height as int
    }
}

/// Whether the sprite of `height` rows at memory address `i`, drawn at
/// (`vx` mod 64, `vy` mod 32), has a set bit over the screen pixel (x, y).
/// Parts of the sprite past the right or bottom edge are clipped, not wrapped.
pub open spec fn sprite_hit(mem: Seq<u8>, i: u16, vx: u8, vy: u8, height: u8, x: int, y: int) -> bool {
    let x0 = vx as int % CHIP8_DISPLAY_WIDTH as int;
    let y0 = vy as int % CHIP8_DISPLAY_HEIGHT as int;
    &&& x0 <= x < x0 + 8
    &&& x < CHIP8_DISPLAY_WIDTH
    &&& y0 <= y < y0 + height
    &&& y < CHIP8_DISPLAY_HEIGHT
    &&& sprite_bit(mem[i + (y - y0)], (x - x0) as u8)
}

/// The grid after the sprite is drawn: each pixel under a set sprite bit flips.
pub open spec fn drawn(
    p: Seq<Seq<bool>>,
    mem: Seq<u8>,
    i: u16,
    vx: u8,
    vy: u8,
    height: u8,
) -> Seq<Seq<bool>> {
    Seq::new(
        CHIP8_DISPLAY_HEIGHT as nat,
        |y: int|
            Seq::new(
                CHIP8_DISPLAY_WIDTH as nat,
                |x: int| p[y][x] != sprite_hit(mem, i, vx, vy, height, x, y),
            ),
    )
}

/// Whether drawing the sprite turns off a pixel that was on.
pub open spec fn collides(p: Seq<Seq<bool>>, mem: Seq<u8>, i: u16, vx: u8, vy: u8, height: u8) -> bool {
    exists|x: int, y: int|
        0 <= x < CHIP8_DISPLAY_WIDTH && 0 <= y < CHIP8_DISPLAY_HEIGHT && #[trigger] sprite_hit(
            mem,
            i,
            vx,
            vy,
            height,
            x,
            y,
        ) && p[y][x]
}

/// The part of the sprite that lies before row `n` of the sprite, or in that
/// row before column `m`.
spec fn hit_before(mem: Seq<u8>, i: u16, vx: u8, vy: u8, height: u8, n: int, m: int, x: int, y: int) -> bool {
    let x0 = vx as int % CHIP8_DISPLAY_WIDTH as int;
    let y0 = vy as int % CHIP8_DISPLAY_HEIGHT as int;
    sprite_hit(mem, i, vx, vy, height, x, y) && (y < y0 + n || (y == y0 + n && x < x0 + m))
}

/// Whether a pixel that was on in `init` lies under the part of the sprite
/// before row `n`, column `m`.
spec fn any_collision(
    init: Seq<Seq<bool>>,
    mem: Seq<u8>,
    i: u16,
    vx: u8,
    vy: u8,
    height: u8,
    n: int,
    m: int,
) -> bool {
    exists|x: int, y: int|
        0 <= x < CHIP8_DISPLAY_WIDTH && 0 <= y < CHIP8_DISPLAY_HEIGHT && #[trigger] hit_before(
            mem,
            i,
            vx,
            vy,
            height,
            n,
            m,
            x,
            y,
        ) && init[y][x]
}

proof fn lemma_any_collision_same(
    init: Seq<Seq<bool>>,
    mem: Seq<u8>,
    i: u16,
    vx: u8,
    vy: u8,
    height: u8,
    n1: int,
    m1: int,
    n2: int,
    m2: int,
)
    requires
        forall|x: int, y: int|
            0 <= x < CHIP8_DISPLAY_WIDTH && 0 <= y < CHIP8_DISPLAY_HEIGHT ==> #[trigger] hit_before(
                mem,
                i,
                vx,
                vy,
                height,
                n1,
                m1,
                x,
                y,
            ) == hit_before(mem, i, vx, vy, height, n2, m2, x, y),
    ensures
        any_collision(init, mem, i, vx, vy, height, n1, m1)
            == any_collision(init, mem, i, vx, vy, height, n2, m2),
{
    if any_collision(init, mem, i, vx, vy, height, n1, m1) {
        let (x, y) = choose|x: int, y: int|
            0 <= x < CHIP8_DISPLAY_WIDTH && 0 <= y < CHIP8_DISPLAY_HEIGHT && #[trigger] hit_before(
                mem,
                i,
                vx,
                vy,
                height,
                n1,
                m1,
                x,
                y,
            ) && init[y][x];
        assert(hit_before(mem, i, vx, vy, height, n2, m2, x, y));
    }
    if any_collision(init, mem, i, vx, vy, height, n2, m2) {
        let (x, y) = choose|x: int, y: int|
            0 <= x < CHIP8_DISPLAY_WIDTH && 0 <= y < CHIP8_DISPLAY_HEIGHT && #[trigger] hit_before(
                mem,
                i,
                vx,
                vy,
                height,
                n2,
                m2,
                x,
                y,
            ) && init[y][x];
        assert(hit_before(mem, i, vx, vy, height, n1, m1, x, y));
    }
}

proof fn lemma_any_collision_step(
    init: Seq<Seq<bool>>,
    mem: Seq<u8>,
    i: u16,
    vx: u8,
    vy: u8,
    height: u8,
    n: int,
    m: int,
    cx: int,
    cy: int,
    bit: bool,
)
    requires
        0 <= cx < CHIP8_DISPLAY_WIDTH,
        0 <= cy < CHIP8_DISPLAY_HEIGHT,
        forall|x: int, y: int|
            0 <= x < CHIP8_DISPLAY_WIDTH && 0 <= y < CHIP8_DISPLAY_HEIGHT ==> #[trigger] hit_before(
                mem,
                i,
                vx,
                vy,
                height,
                n,
                m + 1,
                x,
                y,
            ) == (hit_before(mem, i, vx, vy, height, n, m, x, y) || (x == cx && y == cy && bit)),
    ensures
        any_collision(init, mem, i, vx, vy, height, n, m + 1) == (any_collision(
            init,
            mem,
            i,
            vx,
            vy,
            height,
            n,
            m,
        ) || (bit && init[cy][cx])),
{
    if any_collision(init, mem, i, vx, vy, height, n, m) {
        let (x, y) = choose|x: int, y: int|
            0 <= x < CHIP8_DISPLAY_WIDTH && 0 <= y < CHIP8_DISPLAY_HEIGHT && #[trigger] hit_before(
                mem,
                i,
                vx,
                vy,
                height,
                n,
                m,
                x,
                y,
            ) && init[y][x];
        assert(hit_before(mem, i, vx, vy, height, n, m + 1, x, y));
    }
    if bit && init[cy][cx] {
        assert(hit_before(mem, i, vx, vy, height, n, m + 1, cx, cy));
    }
    if any_collision(init, mem, i, vx, vy, height, n, m + 1) {
        let (x, y) = choose|x: int, y: int|
            0 <= x < CHIP8_DISPLAY_WIDTH && 0 <= y < CHIP8_DISPLAY_HEIGHT && #[trigger] hit_before(
                mem,
                i,
                vx,
                vy,
                height,
                n,
                m + 1,
                x,
                y,
            ) && init[y][x];
        if !(x == cx && y == cy && bit) {
            assert(hit_before(mem, i, vx, vy, height, n, m, x, y));
        }
    }
}

/// XOR-draws the `height`-row sprite read from `memory` at `i` with its top
/// left corner at (`vx` mod 64, `vy` mod 32), clipping at the right and bottom
/// edges; tells whether a pixel that was on turned off.
pub fn draw_sprite(
    pixels: &mut Pixels,
    memory: &[u8; MEMORY_SIZE],
    i: u16,
    vx: u8,
    vy: u8,
    height: u8,
) -> (collided: bool)
    requires
        i + drawn_rows(vy, height) <= MEMORY_SIZE,
    ensures
        grid(*final(pixels)) == drawn(grid(*old(pixels)), memory@, i, vx, vy, height),
        collided == collides(grid(*old(pixels)), memory@, i, vx, vy, height),
{
    let ghost init = grid(*pixels);
    let ghost mem = memory@;
    let x0: usize = (vx % CHIP8_DISPLAY_WIDTH as u8) as usize;
    let y0: usize = (vy % CHIP8_DISPLAY_HEIGHT as u8) as usize;
    let mut collided = false;
    let mut n: usize = 0;
    while n < height as usize && y0 + n < CHIP8_DISPLAY_HEIGHT
        invariant
            x0 == vx as int % CHIP8_DISPLAY_WIDTH as int,
            y0 == vy as int % CHIP8_DISPLAY_HEIGHT as int,
            i + drawn_rows(vy, height) <= MEMORY_SIZE,
            mem == memory@,
            n <= height,
            y0 + n <= CHIP8_DISPLAY_HEIGHT,
            init.len() == CHIP8_DISPLAY_HEIGHT,
            forall|y: int| 0 <= y < CHIP8_DISPLAY_HEIGHT ==> #[trigger] init[y].len() == CHIP8_DISPLAY_WIDTH,
            forall|x: int, y: int|
                0 <= x < CHIP8_DISPLAY_WIDTH && 0 <= y < CHIP8_DISPLAY_HEIGHT ==> #[trigger] pixels@[y]@[x] == (
                init[y][x] != hit_before(mem, i, vx, vy, height, n as int, 0, x, y)),
            collided == any_collision(init, mem, i, vx, vy, height, n as int, 0),
        decreases height - n,
    {
        let row = memory[i as usize + n];
        let mut m: usize = 0;
        while m < 8 && x0 + m < CHIP8_DISPLAY_WIDTH
            invariant
                x0 == vx as int % CHIP8_DISPLAY_WIDTH as int,
                y0 == vy as int % CHIP8_DISPLAY_HEIGHT as int,
                i + drawn_rows(vy, height) <= MEMORY_SIZE,
                mem == memory@,
                n < height,
                y0 + n < CHIP8_DISPLAY_HEIGHT,
                row == mem[i + n],
                m <= 8,
                x0 + m <= CHIP8_DISPLAY_WIDTH,
                init.len() == CHIP8_DISPLAY_HEIGHT,
                forall|y: int| 0 <= y < CHIP8_DISPLAY_HEIGHT ==> #[trigger] init[y].len() == CHIP8_DISPLAY_WIDTH,
                forall|x: int, y: int|
                    0 <= x < CHIP8_DISPLAY_WIDTH && 0 <= y < CHIP8_DISPLAY_HEIGHT ==> #[trigger] pixels@[y]@[x] == (
                    init[y][x] != hit_before(mem, i, vx, vy, height, n as int, m as int, x, y)),
                collided == any_collision(init, mem, i, vx, vy, height, n as int, m as int),
            decreases 8 - m,
        {
            let mm: u8 = m as u8;
            let bit = (row >> (7 - mm)) & 1u8 == 1u8;
            let ghost cx = (x0 + m) as int;
            let ghost cy = (y0 + n) as int;
            assert(bit == sprite_hit(mem, i, vx, vy, height, cx, cy));
            if bit {
                let was = pixels[y0 + n][x0 + m];
                assert(!hit_before(mem, i, vx, vy, height, n as int, m as int, cx, cy));
                assert(was == init[cy][cx]);
                if was {
                    collided = true;
                }
                pixels[y0 + n][x0 + m] = !was;
            }
            assert forall|x: int, y: int|
                0 <= x < CHIP8_DISPLAY_WIDTH && 0 <= y < CHIP8_DISPLAY_HEIGHT implies #[trigger] hit_before(
                    mem,
                    i,
                    vx,
                    vy,
                    height,
                    n as int,
                    m + 1,
                    x,
                    y,
                ) == (hit_before(mem, i, vx, vy, height, n as int, m as int, x, y) || (x == cx && y == cy
                    && bit)) by {}
            proof {
                lemma_any_collision_step(init, mem, i, vx, vy, height, n as int, m as int, cx, cy, bit);
            }
            m = m + 1;
        }
        assert forall|x: int, y: int|
            0 <= x < CHIP8_DISPLAY_WIDTH && 0 <= y < CHIP8_DISPLAY_HEIGHT implies #[trigger] hit_before(
                mem,
                i,
                vx,
                vy,
                height,
                n + 1,
                0,
                x,
                y,
            ) == hit_before(mem, i, vx, vy, height, n as int, m as int, x, y) by {}
        proof {
            lemma_any_collision_same(init, mem, i, vx, vy, height, n + 1, 0, n as int, m as int);
        }
        n = n + 1;
    }
    assert forall|x: int, y: int|
        0 <= x < CHIP8_DISPLAY_WIDTH && 0 <= y < CHIP8_DISPLAY_HEIGHT implies #[trigger] hit_before(
            mem,
            i,
            vx,
            vy,
            height,
            n as int,
            0,
            x,
            y,
        ) == sprite_hit(mem, i, vx, vy, height, x, y) by {}
    assert(collided == collides(init, mem, i, vx, vy, height)) by {
        if collided {
            let (x, y) = choose|x: int, y: int|
                0 <= x < CHIP8_DISPLAY_WIDTH && 0 <= y < CHIP8_DISPLAY_HEIGHT && #[trigger] hit_before(
                    mem,
                    i,
                    vx,
                    vy,
                    height,
                    n as int,
                    0,
                    x,
                    y,
                ) && init[y][x];
            assert(sprite_hit(mem, i, vx, vy, height, x, y));
        }
        if collides(init, mem, i, vx, vy, height) {
            let (x, y) = choose|x: int, y: int|
                0 <= x < CHIP8_DISPLAY_WIDTH && 0 <= y < CHIP8_DISPLAY_HEIGHT && #[trigger] sprite_hit(
                    mem,
                    i,
                    vx,
                    vy,
                    height,
                    x,
                    y,
                ) && init[y][x];
            assert(hit_before(mem, i, vx, vy, height, n as int, 0, x, y));
        }
    }
    assert(grid(*pixels) =~~= drawn(init, mem, i, vx, vy, height));
    collided
}

/// A grid of 32 rows of 64 pixels.
pub open spec fn is_grid(p: Seq<Seq<bool>>) -> bool {
    &&& p.len() == CHIP8_DISPLAY_HEIGHT
    &&& forall|y: int| 0 <= y < CHIP8_DISPLAY_HEIGHT ==> #[trigger] p[y].len() == CHIP8_DISPLAY_WIDTH
}

/// Drawing a sprite twice at the same place from the same memory gives the
/// grid back. The second drawing reports a collision exactly when a pixel
/// under a set sprite bit was off before the first, since the first drawing
/// turned it on.
pub proof fn lemma_draw_twice(p: Seq<Seq<bool>>, mem: Seq<u8>, i: u16, vx: u8, vy: u8, height: u8)
    requires
        is_grid(p),
    ensures
        drawn(drawn(p, mem, i, vx, vy, height), mem, i, vx, vy, height) == p,
        collides(drawn(p, mem, i, vx, vy, height), mem, i, vx, vy, height) == exists|x: int, y: int|
            0 <= x < CHIP8_DISPLAY_WIDTH && 0 <= y < CHIP8_DISPLAY_HEIGHT && #[trigger] sprite_hit(
                mem,
                i,
                vx,
                vy,
                height,
                x,
                y,
            ) && !p[y][x],
{
    let q = drawn(p, mem, i, vx, vy, height);
    assert(drawn(q, mem, i, vx, vy, height) =~~= p);
}

/// Drawing keeps the grid's shape, and changes no pixel left of or above the
/// sprite's corner, nor any beyond its eight columns and `height` rows: what
/// crosses the right or bottom edge is dropped, not wrapped to the other side.
pub proof fn lemma_draw_clipped(p: Seq<Seq<bool>>, mem: Seq<u8>, i: u16, vx: u8, vy: u8, height: u8)
    requires
        is_grid(p),
    ensures
        is_grid(drawn(p, mem, i, vx, vy, height)),
        forall|x: int, y: int|
            0 <= x < CHIP8_DISPLAY_WIDTH && 0 <= y < CHIP8_DISPLAY_HEIGHT && (x < vx as int
                % CHIP8_DISPLAY_WIDTH as int || x >= vx as int % CHIP8_DISPLAY_WIDTH as int + 8 || y
                < vy as int % CHIP8_DISPLAY_HEIGHT as int || y >= vy as int % CHIP8_DISPLAY_HEIGHT as int
                + height) ==> #[trigger] drawn(p, mem, i, vx, vy, height)[y][x] == p[y][x],
{
}

/// A row of the text frame: the pixel character where a pixel is on, a space
/// where it is off.
pub open spec fn row_text(row: Seq<bool>, pixel_character: char) -> Seq<char> {
    Seq::new(row.len(), |x: int| if row[x] { pixel_character } else { ' ' })
}

/// The text frame of the first `n` rows, each ended by "\r\n".
pub open spec fn frame_text(rows: Seq<Seq<bool>>, pixel_character: char, n: nat) -> Seq<char>
    decreases n,
{
    if n == 0 {
        Seq::empty()
    } else {
        frame_text(rows, pixel_character, (n - 1) as nat) + row_text(rows[n - 1], pixel_character) + seq![
            '\r',
            '\n',
        ]
    }
}

/// The grid as text for a terminal in raw mode: a line per row, a character
/// per pixel, lines ended by "\r\n".
pub fn render_text(pixels: &Pixels, pixel_character: char) -> (r: String)
    ensures
        r@ == frame_text(grid(*pixels), pixel_character, CHIP8_DISPLAY_HEIGHT as nat),
{
    let ghost rows = grid(*pixels);
    let mut out = String::new();
    let mut y: usize = 0;
    while y < CHIP8_DISPLAY_HEIGHT
        invariant
            y <= CHIP8_DISPLAY_HEIGHT,
            rows == grid(*pixels),
            out@ == frame_text(rows, pixel_character, y as nat),
        decreases CHIP8_DISPLAY_HEIGHT - y,
    {
        let ghost prefix = out@;
        let mut x: usize = 0;
        while x < CHIP8_DISPLAY_WIDTH
            invariant
                y < CHIP8_DISPLAY_HEIGHT,
                x <= CHIP8_DISPLAY_WIDTH,
                rows == grid(*pixels),
                out@ == prefix + row_text(rows[y as int], pixel_character).take(x as int),
            decreases CHIP8_DISPLAY_WIDTH - x,
        {
            out.push(if pixels[y][x] { pixel_character } else { ' ' });
            assert(row_text(rows[y as int], pixel_character).take(x + 1) =~= row_text(
                rows[y as int],
                pixel_character,
            ).take(x as int).push(if pixels[y as int][x as int] { pixel_character } else { ' ' }));
            x = x + 1;
        }
        assert(row_text(rows[y as int], pixel_character).take(x as int) =~= row_text(
            rows[y as int],
            pixel_character,
        ));
        out.push('\r');
        out.push('\n');
        assert(out@ =~= frame_text(rows, pixel_character, (y + 1) as nat));
        y = y + 1;
    }
    out
}

/// Where `code` first appears in `key_map`: the keypad key that a host key
/// stands for.
pub fn key_index(key_map: &[u32; 16], code: u32) -> (r: Option<u8>)
    ensures
        r matches Some(k) ==> k < 16 && key_map@[k as int] == code && forall|j: int|
            0 <= j < k ==> key_map@[j] != code,
        r is None ==> forall|j: int| 0 <= j < 16 ==> key_map@[j] != code,
{
    let mut k: usize = 0;
    while k < 16
        invariant
            k <= 16,
            forall|j: int| 0 <= j < k ==> key_map@[j] != code,
        decreases 16 - k,
    {
        if key_map[k] == code {
            return Some(k as u8);
        }
        k = k + 1;
    }
    None
}

/// `s` with each "\n" made "\r\n".
pub open spec fn crlf(s: Seq<char>) -> Seq<char>
    decreases s.len(),
{
    if s.len() == 0 {
        Seq::empty()
    } else if s.last() == '\n' {
        crlf(s.drop_last()) + seq!['\r', '\n']
    } else {
        crlf(s.drop_last()).push(s.last())
    }
}

/// `message` with its line ends made "\r\n", for a terminal in raw mode.
pub fn to_crlf(message: &str) -> (r: String)
    ensures
        r@ == crlf(message@),
{
    let mut out = String::new();
    let n = message.unicode_len();
    let mut k: usize = 0;
    while k < n
        invariant
            n == message@.len(),
            k <= n,
            out@ == crlf(message@.take(k as int)),
        decreases n - k,
    {
        let c = message.get_char(k);
        if c == '\n' {
            out.push('\r');
        }
        out.push(c);
        assert(message@.take(k + 1).drop_last() =~= message@.take(k as int));
        assert(out@ =~= crlf(message@.take(k + 1)));
        k = k + 1;
    }
    assert(message@.take(n as int) =~= message@);
    out
}

/// The colour of a pixel in a window buffer: white when on, black when off.
pub open spec fn colour(on: bool) -> u32 {
    if on {
        0x00FF_FFFF
    } else {
        0
    }
}

/// What the window buffer holds at row `r`, column `c` once the grid is drawn
/// into it, each grid pixel as a block of `height / 32` rows and `width / 64`
/// columns from the top left; the part of the buffer past the blocks keeps
/// `was`.
pub open spec fn scaled_at(rows: Seq<Seq<bool>>, width: int, height: int, r: int, c: int, was: u32) -> u32 {
    let hm = height / CHIP8_DISPLAY_HEIGHT as int;
    let wm = width / CHIP8_DISPLAY_WIDTH as int;
    if r < CHIP8_DISPLAY_HEIGHT * hm && c < CHIP8_DISPLAY_WIDTH * wm {
        colour(rows[r / hm][c / wm])
    } else {
        was
    }
}

proof fn lemma_cell_distinct(r: int, c: int, r0: int, c0: int, width: int)
    requires
        0 <= r,
        0 <= r0,
        0 <= c < width,
        0 <= c0 < width,
        r != r0 || c != c0,
    ensures
        r * width + c != r0 * width + c0,
{
    if r < r0 {
        assert(r * width + width <= r0 * width) by (nonlinear_arith)
            requires
                r < r0,
                width > 0,
        ;
    } else if r > r0 {
        assert(r0 * width + width <= r * width) by (nonlinear_arith)
            requires
                r0 < r,
                width > 0,
        ;
    }
}

proof fn lemma_cell_in_range(r: int, c: int, width: int, height: int)
    requires
        0 <= r < height,
        0 <= c < width,
    ensures
        0 <= r * width + c < width * height,
{
    assert(0 <= r * width + c < width * height) by (nonlinear_arith)
        requires
            0 <= r < height,
            0 <= c < width,
    ;
}

proof fn lemma_block_index(r: int, m: int, n: int)
    requires
        0 <= r < n * m,
        0 < m,
        0 < n,
    ensures
        0 <= r / m < n,
{
    assert(0 <= r / m < n) by (nonlinear_arith)
        requires
            0 <= r < n * m,
            0 < m,
    ;
}

/// Draws the grid into a window buffer of `width` by `height` pixels, row by
/// row, each grid pixel as a block of `height / 32` by `width / 64` buffer
/// pixels.
pub fn render_scaled(pixels: &Pixels, buffer: &mut Vec<u32>, width: usize, height: usize)
    requires
        old(buffer)@.len() == width * height,
    ensures
        final(buffer)@.len() == old(buffer)@.len(),
        forall|r: int, c: int|
            0 <= r < height && 0 <= c < width ==> #[trigger] final(buffer)@[r * width + c] == scaled_at(
                grid(*pixels),
                width as int,
                height as int,
                r,
                c,
                old(buffer)@[r * width + c],
            ),
{
    let ghost rows = grid(*pixels);
    let ghost b0 = buffer@;
    let len = buffer.len();
    let hm = height / CHIP8_DISPLAY_HEIGHT;
    let wm = width / CHIP8_DISPLAY_WIDTH;
    let rows_end = CHIP8_DISPLAY_HEIGHT * hm;
    let cols_end = CHIP8_DISPLAY_WIDTH * wm;
    assert(rows_end <= height && cols_end <= width) by (nonlinear_arith)
        requires
            hm == height / 32,
            wm == width / 64,
            rows_end == 32 * hm,
            cols_end == 64 * wm,
    ;
    let mut r: usize = 0;
    while r < rows_end
        invariant
            hm == height as int / CHIP8_DISPLAY_HEIGHT as int,
            wm == width as int / CHIP8_DISPLAY_WIDTH as int,
            rows_end == CHIP8_DISPLAY_HEIGHT * hm,
            cols_end == CHIP8_DISPLAY_WIDTH * wm,
            rows_end <= height,
            cols_end <= width,
            r <= rows_end,
            rows == grid(*pixels),
            b0.len() == width * height,
            len == b0.len(),
            buffer@.len() == b0.len(),
            forall|r1: int, c1: int|
                0 <= r1 < height && 0 <= c1 < width ==> #[trigger] buffer@[r1 * width + c1] == if r1 < r
                    && c1 < cols_end {
                    colour(rows[r1 / hm as int][c1 / wm as int])
                } else {
                    b0[r1 * width + c1]
                },
        decreases rows_end - r,
    {
        let mut c: usize = 0;
        while c < cols_end
            invariant
                hm == height as int / CHIP8_DISPLAY_HEIGHT as int,
                wm == width as int / CHIP8_DISPLAY_WIDTH as int,
                rows_end == CHIP8_DISPLAY_HEIGHT * hm,
                cols_end == CHIP8_DISPLAY_WIDTH * wm,
                rows_end <= height,
                cols_end <= width,
                r < rows_end,
                c <= cols_end,
                rows == grid(*pixels),
                b0.len() == width * height,
                len == b0.len(),
                buffer@.len() == b0.len(),
                forall|r1: int, c1: int|
                    0 <= r1 < height && 0 <= c1 < width ==> #[trigger] buffer@[r1 * width + c1] == if (r1 < r
                        || (r1 == r && c1 < c)) && c1 < cols_end {
                        colour(rows[r1 / hm as int][c1 / wm as int])
                    } else {
                        b0[r1 * width + c1]
                    },
            decreases cols_end - c,
        {
            proof {
                lemma_cell_in_range(r as int, c as int, width as int, height as int);
                lemma_block_index(r as int, hm as int, CHIP8_DISPLAY_HEIGHT as int);
                lemma_block_index(c as int, wm as int, CHIP8_DISPLAY_WIDTH as int);
            }
            let on = pixels[r / hm][c / wm];
            let at = r * width + c;
            let ghost before = buffer@;
            buffer.set(at, if on { 0x00FF_FFFF } else { 0 });
            assert forall|r1: int, c1: int|
                0 <= r1 < height && 0 <= c1 < width && (r1 != r || c1 != c) implies #[trigger] buffer@[r1
                    * width + c1] == before[r1 * width + c1] by {
                lemma_cell_in_range(r1, c1, width as int, height as int);
                lemma_cell_distinct(r1, c1, r as int, c as int, width as int);
            }
            c = c + 1;
        }
        r = r + 1;
    }
}

} // verus!
