//! The picture processor: the tile-pixel cache, the RGBA framebuffer,
//! and the per-scanline background, window and sprite renderers.

use vstd::prelude::*;
use crate::memory::{Memory, MemV, mem_read, mem_write, mem_wf};

verus! {

/// One decoded 8x8 tile: 64 pixel values of 2 bits each, row-major.
pub struct Tile {
    pub data: Vec<u8>,
}

/// The 2-bit pixel value column `j` of one tile row holds, given the
/// row's two bit planes: plane `a` contributes 1, plane `b`
/// contributes 2, most-significant column first.
pub open spec fn tile_pixel_spec(a: u8, b: u8, j: int) -> u8
    recommends
        0 <= j < 8,
{
    (((if a & (1u8 << ((7 - j) as u8)) != 0 {
        1u8
    } else {
        0u8
    }) + (if b & (1u8 << ((7 - j) as u8)) != 0 {
        2u8
    } else {
        0u8
    })) as u8)
}

/// The 64 pixel values of tile `t`, decoded from its 16 backing VRAM
/// bytes at 0x8000 + 16*t: each row is two bit planes, low byte first.
pub open spec fn tile_decode(mem: Seq<u8>, t: int) -> Seq<u8>
    recommends
        mem.len() == 0x10000,
        0 <= t < 384,
{
    Seq::new(
        64,
        |p: int|
            tile_pixel_spec(
                mem[0x8000 + t * 16 + (p / 8) * 2],
                mem[0x8000 + t * 16 + (p / 8) * 2 + 1],
                p % 8,
            ),
    )
}

/// A tile's decoding reads only its own 16 VRAM bytes: two memories
/// that agree there decode it alike.
pub proof fn lemma_tile_decode_frame(mem1: Seq<u8>, mem2: Seq<u8>, t: int)
    requires
        mem1.len() == 0x10000,
        mem2.len() == 0x10000,
        0 <= t < 384,
        forall|a: int|
            0x8000 + t * 16 <= a < 0x8000 + t * 16 + 16 ==> mem1[a] == mem2[a],
    ensures
        tile_decode(mem1, t) == tile_decode(mem2, t),
{
    assert forall|p: int| 0 <= p < 64 implies tile_decode(mem1, t)[p] == tile_decode(mem2, t)[p] by {
        let a = 0x8000 + t * 16 + (p / 8) * 2;
        assert(0 <= p / 8 < 8);
        assert(0x8000 + t * 16 <= a && a + 1 < 0x8000 + t * 16 + 16);
    }
    assert(tile_decode(mem1, t) =~= tile_decode(mem2, t));
}

/// A rendering pass may only fill tile-cache entries: each entry is
/// kept, or goes from empty to the decoding of its VRAM bytes.
pub open spec fn tiles_extend(pre: Seq<Option<Seq<u8>>>, post: Seq<Option<Seq<u8>>>, mem: Seq<u8>) -> bool {
    &&& post.len() == pre.len()
    &&& forall|t: int|
        0 <= t < pre.len() ==> ((#[trigger] post[t]) == pre[t] || (pre[t] is None && post[t]
            == Option::Some(tile_decode(mem, t))))
}

/// `tiles_extend` composes across passes over an unchanged VRAM.
pub proof fn lemma_tiles_extend_trans(
    a: Seq<Option<Seq<u8>>>,
    b: Seq<Option<Seq<u8>>>,
    c: Seq<Option<Seq<u8>>>,
    mem: Seq<u8>,
)
    requires
        tiles_extend(a, b, mem),
        tiles_extend(b, c, mem),
    ensures
        tiles_extend(a, c, mem),
{
}

/// A renderer leaves every part of the MMU alone except the tile
/// cache, which it may only fill.
pub open spec fn render_frame(pre: MemV, post: MemV) -> bool {
    &&& post.mem == pre.mem
    &&& post.cart == pre.cart
    &&& post.joy == pre.joy
    &&& post.test_mode == pre.test_mode
    &&& tiles_extend(pre.tiles, post.tiles, pre.mem)
}

impl Tile {
    pub fn new() -> (t: Tile)
        ensures
            t.data@ == Seq::new(64, |i: int| 0u8),
    {
        let mut data: Vec<u8> = Vec::new();
        let mut i: usize = 0;
        while i < 64
            invariant
                i <= 64,
                data@ =~= Seq::new(i as nat, |j: int| 0u8),
            decreases 64 - i,
        {
            data.push(0);
            i = i + 1;
        }
        proof {
            assert(data@ =~= Seq::new(64, |j: int| 0u8));
        }
        Tile { data }
    }
}

pub struct PPU {
    /// The 160x144 RGBA framebuffer, row-major.
    pub screen: Vec<u8>,
    /// The window's internal line counter: it advances only on lines
    /// where the window is drawn, and resets in the vertical blank.
    pub window_counter: u8,
}

pub open spec fn ppu_wf(p: PPU) -> bool {
    p.screen@.len() == 160 * 144 * 4
}

/// Whether a framebuffer index lies outside scanline `ly`'s bytes.
pub open spec fn outside_row(i: int, ly: int) -> bool {
    !(ly * 640 <= i < ly * 640 + 640)
}

/// The fixed four-shade palette, RGB.
pub open spec fn spec_rgb(color: u8) -> (u8, u8, u8) {
    if color == 0 {
        (0xe2, 0xf3, 0xe4)
    } else if color == 1 {
        (0x94, 0xe3, 0x44)
    } else if color == 2 {
        (0x46, 0x87, 0x8f)
    } else if color == 3 {
        (0x33, 0x2c, 0x50)
    } else {
        (0, 0, 0)
    }
}

/// A 2-bit pixel value resolved through a palette's four fields.
pub open spec fn spec_color(index: u8, c_0: u8, c_1: u8, c_2: u8, c_3: u8) -> (u8, u8, u8) {
    if index == 0 {
        spec_rgb(c_0)
    } else if index == 1 {
        spec_rgb(c_1)
    } else if index == 2 {
        spec_rgb(c_2)
    } else if index == 3 {
        spec_rgb(c_3)
    } else {
        (0, 0, 0)
    }
}

/// The background color of scanline `ly`'s screen column `sx`: the
/// SCX/SCY-scrolled position selects a tile-map byte (base per LCDC
/// bit 3), the tile id is signed or unsigned per LCDC bit 4, and the
/// tile's pixel resolves through the BGP palette.
#[verifier::opaque]
pub open spec fn bg_rgb(m: MemV, lcdc: u8, ly: u8, sx: int) -> (u8, u8, u8)
    recommends
        mem_wf(m),
        ly < 144,
        0 <= sx < 160,
{
    let scy = mem_read(m, 0xff42);
    let scx = mem_read(m, 0xff43);
    let bgp = mem_read(m, 0xff47);
    let x = (scx + sx) % 256;
    let yy = (scy + ly) % 256;
    let area: int = if lcdc & 0b1000 > 0 {
        0x9c00
    } else {
        0x9800
    };
    let t_id0 = m.mem[area + x / 8 + (yy / 8) * 32];
    let t_id: int = if lcdc & 0b10000 == 0 && t_id0 < 128 {
        t_id0 + 256
    } else {
        t_id0 as int
    };
    let pix = tile_decode(m.mem, t_id)[(x % 8) + (yy % 8) * 8];
    spec_color(pix, bgp & 0b11, (bgp >> 2) & 0b11, (bgp >> 4) & 0b11, bgp >> 6)
}

/// The window-overlay color of scanline `ly`'s screen column `sx`,
/// with `wc` the window's internal line counter for this line: the
/// window-relative position selects a tile-map byte (base per LCDC
/// bit 6), the tile id is signed or unsigned per LCDC bit 4, and the
/// tile's pixel resolves through the BGP palette.
#[verifier::opaque]
pub open spec fn win_rgb(m: MemV, lcdc: u8, wc: u8, ly: u8, sx: int) -> (u8, u8, u8)
    recommends
        mem_wf(m),
        ly < 144,
        0 <= sx < 160,
{
    let bgp = mem_read(m, 0xff47);
    let wx = mem_read(m, 0xff4b) - 7;
    let yw = wc as int;
    let area: int = if lcdc & 0b1000000 > 0 {
        0x9c00
    } else {
        0x9800
    };
    let t_id0 = m.mem[area + (sx - wx) / 8 + (yw / 8) * 32];
    let t_id: int = if lcdc & 0b10000 == 0 && t_id0 < 128 {
        t_id0 + 256
    } else {
        t_id0 as int
    };
    let pix = tile_decode(m.mem, t_id)[(sx - wx) % 8 + (yw % 8) * 8];
    spec_color(pix, bgp & 0b11, (bgp >> 2) & 0b11, (bgp >> 4) & 0b11, bgp >> 6)
}

/// The color scanline `ly`'s column `sx` shows before sprites: the
/// window overlay from its start column where it is drawn, the
/// background everywhere else.
pub open spec fn scanline_rgb(m: MemV, lcdc: u8, wc: u8, ly: u8, sx: int) -> (u8, u8, u8)
    recommends
        mem_wf(m),
        ly < 144,
        0 <= sx < 160,
{
    if spec_window_drawn(m, lcdc, ly) && sx >= mem_read(m, 0xff4b) - 7 {
        win_rgb(m, lcdc, wc, ly, sx)
    } else {
        bg_rgb(m, lcdc, ly, sx)
    }
}

/// Whether one screen pixel of scanline `ly` holds its
/// window-or-background color.
pub open spec fn scanline_pixel_ok(
    screen: Seq<u8>,
    m: MemV,
    lcdc: u8,
    wc: u8,
    ly: u8,
    sx: int,
) -> bool
    recommends
        screen.len() == 160 * 144 * 4,
{
    let rgb = scanline_rgb(m, lcdc, wc, ly, sx);
    &&& screen[(sx + ly * 160) * 4] == rgb.0
    &&& screen[(sx + ly * 160) * 4 + 1] == rgb.1
    &&& screen[(sx + ly * 160) * 4 + 2] == rgb.2
    &&& screen[(sx + ly * 160) * 4 + 3] == 0xffu8
}

/// Whether one screen pixel of scanline `ly` holds its window-overlay
/// color.
pub open spec fn win_pixel_ok(
    screen: Seq<u8>,
    m: MemV,
    lcdc: u8,
    wc: u8,
    ly: u8,
    sx: int,
) -> bool
    recommends
        screen.len() == 160 * 144 * 4,
{
    let rgb = win_rgb(m, lcdc, wc, ly, sx);
    &&& screen[(sx + ly * 160) * 4] == rgb.0
    &&& screen[(sx + ly * 160) * 4 + 1] == rgb.1
    &&& screen[(sx + ly * 160) * 4 + 2] == rgb.2
    &&& screen[(sx + ly * 160) * 4 + 3] == 0xffu8
}

/// Whether one screen pixel of scanline `ly` holds its background
/// color.
pub open spec fn bg_pixel_ok(screen: Seq<u8>, m: MemV, lcdc: u8, ly: u8, sx: int) -> bool
    recommends
        screen.len() == 160 * 144 * 4,
{
    let rgb = bg_rgb(m, lcdc, ly, sx);
    &&& screen[(sx + ly * 160) * 4] == rgb.0
    &&& screen[(sx + ly * 160) * 4 + 1] == rgb.1
    &&& screen[(sx + ly * 160) * 4 + 2] == rgb.2
    &&& screen[(sx + ly * 160) * 4 + 3] == 0xffu8
}

/// Whether one pixel of a rendered scanline shows the composed
/// picture the memory state calls for: the winning sprite's color
/// where sprites are enabled and one shows, the window-or-background
/// color elsewhere (`wc` is the window line counter the line was
/// drawn with).
pub open spec fn line_pixel_ok(screen: Seq<u8>, m: MemV, lcdc: u8, wc: u8, ly: u8, sx: int) -> bool
    recommends
        mem_wf(m),
        ly < 144,
        0 <= sx < 160,
{
    if lcdc & 0b10 != 0 && sprite_winner(m.mem, lcdc, ly, sx, 0) is Some {
        let rgb = sprite_winner(m.mem, lcdc, ly, sx, 0)->0;
        let p = (sx + ly * 160) * 4;
        &&& screen[p] == rgb.0
        &&& screen[p + 1] == rgb.1
        &&& screen[p + 2] == rgb.2
        &&& screen[p + 3] == 0xffu8
    } else {
        scanline_pixel_ok(screen, m, lcdc, wc, ly, sx)
    }
}

/// Whether one pixel of scanline `ly` holds the palette's first
/// shade with full alpha, as the disabled-background fill leaves it.
pub open spec fn blank_pixel_ok(screen: Seq<u8>, ly: u8, j: int) -> bool {
    let p = (j + ly * 160) * 4;
    &&& screen[p] == 0xe2u8
    &&& screen[p + 1] == 0xf3u8
    &&& screen[p + 2] == 0xe4u8
    &&& screen[p + 3] == 0xffu8
}

/// Whether the window overlay is drawn on scanline `ly`: it must be
/// enabled by LCDC bit 5, reach the line (WY <= LY < 144 over WY), and
/// start left of column 166.
pub open spec fn spec_window_drawn(m: MemV, lcdc: u8, ly: u8) -> bool {
    let we = lcdc & 0b100000 > 0;
    let wy: int = if we {
        mem_read(m, 0xff4a) as int
    } else {
        0
    };
    let wx: int = if we && wy <= ly {
        mem_read(m, 0xff4b) - 7
    } else {
        0
    };
    we && ly >= wy && wy < 144 && wx < 166
}

/// The pixel sprite entry `i` contributes at scanline `ly`, column
/// `sx`: its object-palette color when the sprite covers the position
/// with a non-transparent pixel, nothing otherwise.  The OAM entry's
/// four bytes give Y+16, X+8, the tile index (bit 0 masked in 8x16
/// mode) and the attributes (Y flip bit 6, X flip bit 5, OBP1 select
/// bit 4); pixel value 0 is transparent.
#[verifier::opaque]
pub open spec fn sprite_rgb_at(mem: Seq<u8>, lcdc: u8, ly: u8, i: int, sx: int) -> Option<
    (u8, u8, u8),
>
    recommends
        mem.len() == 0x10000,
        ly < 144,
        0 <= i < 40,
        0 <= sx < 160,
{
    let oam = 0xfe00 + i * 4;
    let y = mem[oam] - 16;
    let x = mem[oam + 1] - 8;
    let tile_id: int = if lcdc & 0b100 > 0 {
        (mem[oam + 2] & 0xfe) as int
    } else {
        mem[oam + 2] as int
    };
    let height: int = if lcdc & 0b100 > 0 {
        16
    } else {
        8
    };
    if !(y <= ly < y + height && x <= sx < x + 8) {
        Option::None
    } else {
        let attributes = mem[oam + 3];
        let line: int = if attributes & 0b1000000 > 0 {
            height - (ly - y) - 1
        } else {
            ly - y
        };
        let tid = if line < 8 {
            tile_id
        } else {
            tile_id + 1
        };
        let col: int = if attributes & 0b100000 > 0 {
            7 - (sx - x)
        } else {
            sx - x
        };
        let pixel = tile_decode(mem, tid)[col + (line % 8) * 8];
        if pixel == 0 {
            Option::None
        } else {
            let pal = if attributes & 0b10000 > 0 {
                mem[0xff49]
            } else {
                mem[0xff48]
            };
            Option::Some(
                spec_color(pixel, pal & 0b11, (pal >> 2) & 0b11, (pal >> 4) & 0b11, pal >> 6),
            )
        }
    }
}

/// The sprite whose pixel shows at a column, among entries `i` and
/// above: the 40 OAM entries are drawn in reverse table order, so the
/// lowest-index contributor wins each pixel.
pub open spec fn sprite_winner(mem: Seq<u8>, lcdc: u8, ly: u8, sx: int, i: int) -> Option<
    (u8, u8, u8),
>
    recommends
        mem.len() == 0x10000,
        ly < 144,
        0 <= sx < 160,
    decreases 40 - i,
{
    if i < 0 || i >= 40 {
        Option::None
    } else if sprite_rgb_at(mem, lcdc, ly, i, sx) is Some {
        sprite_rgb_at(mem, lcdc, ly, i, sx)
    } else {
        sprite_winner(mem, lcdc, ly, sx, i + 1)
    }
}

/// Whether one pixel of scanline `ly` equals its value in a base
/// image.
pub open spec fn pixel_unchanged(screen: Seq<u8>, base: Seq<u8>, ly: u8, sx: int) -> bool {
    let p = (sx + ly * 160) * 4;
    &&& screen[p] == base[p]
    &&& screen[p + 1] == base[p + 1]
    &&& screen[p + 2] == base[p + 2]
    &&& screen[p + 3] == base[p + 3]
}

/// Whether one pixel of scanline `ly` shows sprite entry `i`'s
/// contribution over a base image: the sprite's color where it
/// contributes, the base pixel where it does not.
pub open spec fn sprite_applied(
    screen: Seq<u8>,
    base: Seq<u8>,
    mem: Seq<u8>,
    lcdc: u8,
    ly: u8,
    sx: int,
    i: int,
) -> bool {
    match sprite_rgb_at(mem, lcdc, ly, i, sx) {
        Option::Some(rgb) => {
            let p = (sx + ly * 160) * 4;
            &&& screen[p] == rgb.0
            &&& screen[p + 1] == rgb.1
            &&& screen[p + 2] == rgb.2
            &&& screen[p + 3] == 0xffu8
        },
        Option::None => pixel_unchanged(screen, base, ly, sx),
    }
}

/// Whether one pixel of scanline `ly` shows the sprite layer built
/// from entries `i` and above over a base image: the winning sprite's
/// color, or the base pixel where no sprite shows.
pub open spec fn sprite_pixel_ok(
    screen: Seq<u8>,
    base: Seq<u8>,
    mem: Seq<u8>,
    lcdc: u8,
    ly: u8,
    sx: int,
    i: int,
) -> bool {
    match sprite_winner(mem, lcdc, ly, sx, i) {
        Option::Some(rgb) => {
            let p = (sx + ly * 160) * 4;
            &&& screen[p] == rgb.0
            &&& screen[p + 1] == rgb.1
            &&& screen[p + 2] == rgb.2
            &&& screen[p + 3] == 0xffu8
        },
        Option::None => pixel_unchanged(screen, base, ly, sx),
    }
}

impl PPU {
    pub fn new() -> (p: PPU)
        ensures
            ppu_wf(p),
            p.window_counter == 0,
            forall|i: int| 0 <= i < 160 * 144 * 4 ==> p.screen@[i] == 0xffu8,
    {
        let mut screen: Vec<u8> = Vec::new();
        let mut i: usize = 0;
        while i < 92160
            invariant
                i <= 92160,
                screen@.len() == i,
                forall|j: int| 0 <= j < i ==> screen@[j] == 0xffu8,
            decreases 92160 - i,
        {
            screen.push(0xff);
            i = i + 1;
        }
        PPU { screen, window_counter: 0 }
    }

    /// Renders one scanline (background, window, sprites) into the
    /// framebuffer when LY names a visible line, resets the window
    /// line counter in the vertical blank, and advances LY by one
    /// modulo 154 through the routed LY write (so the LYC coincidence
    /// runs).  Nothing outside scanline LY's framebuffer bytes
    /// changes, the MMU's bytes change exactly as the LY write says,
    /// and with the display enabled every pixel of the rendered line
    /// ends as `line_pixel_ok` says: the winning sprite's color over
    /// the window-or-background picture.
    pub fn advance_line(&mut self, mem: &mut Memory)
        requires
            ppu_wf(*old(self)),
            mem_wf(old(mem)@),
        ensures
            ppu_wf(*final(self)),
            mem_wf(final(mem)@),
            ({
                let ly = mem_read(old(mem)@, 0xff44);
                let ly2 = ((ly + 1) % 154) as u8;
                &&& final(mem)@.mem == mem_write(old(mem)@, 0xff44, ly2).mem
                &&& final(mem)@.cart == old(mem)@.cart
                &&& final(mem)@.joy == old(mem)@.joy
                &&& final(mem)@.test_mode == old(mem)@.test_mode
                &&& tiles_extend(old(mem)@.tiles, final(mem)@.tiles, old(mem)@.mem)
                &&& (ly < 144 ==> forall|i: int|
                    0 <= i < 160 * 144 * 4 && outside_row(i, ly as int)
                        ==> final(self).screen@[i] == old(self).screen@[i])
                &&& (ly >= 144 ==> final(self).screen == old(self).screen
                    && final(self).window_counter == 0)
                &&& ({
                    let lcdc = mem_read(old(mem)@, 0xff40);
                    &&& (ly < 144 ==> final(self).window_counter == (if lcdc & 0x1 != 0
                        && spec_window_drawn(old(mem)@, lcdc, ly) {
                        ((old(self).window_counter + 1) % 256) as u8
                    } else {
                        old(self).window_counter
                    }))
                    &&& ((ly < 144 && lcdc & 0x1 != 0) ==> forall|j: int|
                        0 <= j < 160 ==> line_pixel_ok(
                            final(self).screen@,
                            old(mem)@,
                            lcdc,
                            old(self).window_counter,
                            ly,
                            j,
                        ))
                })
            }),
    {
        let ghost pre = old(mem)@;
        let ly = mem.read(0xff44);
        let lcdc = mem.read(0xff40);
        if ly < 144 {
            self.draw_background_line(mem, ly, lcdc);
            let ghost s1 = self.screen@;
            self.draw_sprite_line(mem, ly, lcdc);
            proof {
                if lcdc & 0x1 != 0 {
                    assert forall|j: int| 0 <= j < 160 implies line_pixel_ok(
                        self.screen@,
                        pre,
                        lcdc,
                        old(self).window_counter,
                        ly,
                        j,
                    ) by {
                        assert(scanline_pixel_ok(s1, pre, lcdc, old(self).window_counter, ly, j));
                        if lcdc & 0b10 != 0 {
                            assert(sprite_pixel_ok(
                                self.screen@,
                                s1,
                                pre.mem,
                                lcdc,
                                ly,
                                j,
                                0,
                            ));
                            if sprite_winner(pre.mem, lcdc, ly, j, 0) is None {
                                assert(pixel_unchanged(self.screen@, s1, ly, j));
                            }
                        } else {
                            assert(self.screen@ == s1);
                        }
                    }
                }
            }
        } else {
            self.window_counter = 0;
        }
        let ly2 = (((ly as u16) + 1) % 154) as u8;
        let ghost m1 = mem@;
        mem.write(0xff44, ly2);
        proof {
            reveal(crate::memory::mem_write);
            assert(final(mem)@.mem =~= mem_write(pre, 0xff44, ly2).mem);
        }
    }

    /// The decoded tile with this index, from the cache when the entry
    /// is warm, decoding and filling it otherwise.  Either way the
    /// result is the decoding of the tile's current VRAM bytes.
    pub fn get_tile(&mut self, mem: &mut Memory, tile_index: usize) -> (t: Tile)
        requires
            tile_index < 384,
            mem_wf(old(mem)@),
        ensures
            t.data@ == tile_decode(old(mem)@.mem, tile_index as int),
            mem_wf(final(mem)@),
            render_frame(old(mem)@, final(mem)@),
            final(mem)@.tiles[tile_index as int] == Option::Some(
                tile_decode(old(mem)@.mem, tile_index as int),
            ),
            *final(self) == *old(self),
    {
        let cached = self.tile_ready(mem, tile_index);
        if cached {
            let mut data: Vec<u8> = Vec::new();
            let entry = &mem.tile_cache[tile_index];
            match entry {
                Option::Some(t) => {
                    let mut i: usize = 0;
                    while i < t.data.len()
                        invariant
                            i <= t.data@.len(),
                            data@ =~= t.data@.take(i as int),
                        decreases t.data@.len() - i,
                    {
                        let b = t.data[i];
                        data.push(b);
                        i = i + 1;
                    }
                    proof {
                        assert(data@ =~= t.data@);
                    }
                },
                Option::None => (),
            }
            Tile { data }
        } else {
            self.parse_and_cache_tile(mem, tile_index)
        }
    }

    /// Whether the cache already holds this tile.
    fn tile_ready(&self, mem: &Memory, tile_index: usize) -> (b: bool)
        requires
            tile_index < 384,
            mem_wf(mem@),
        ensures
            b == (mem@.tiles[tile_index as int] is Some),
    {
        mem.tile_cache[tile_index].is_some()
    }

    /// Decodes a tile's 16 VRAM bytes into 64 pixel values and caches
    /// the result.
    pub fn parse_and_cache_tile(&mut self, mem: &mut Memory, tile_index: usize) -> (t: Tile)
        requires
            tile_index < 384,
            mem_wf(old(mem)@),
        ensures
            t.data@ == tile_decode(old(mem)@.mem, tile_index as int),
            mem_wf(final(mem)@),
            render_frame(old(mem)@, final(mem)@),
            final(mem)@.tiles[tile_index as int] == Option::Some(
                tile_decode(old(mem)@.mem, tile_index as int),
            ),
            *final(self) == *old(self),
    {
        let ghost pre = mem@;
        let mut data: Vec<u8> = Vec::new();
        let mut x: usize = 0;
        while x < 8
            invariant
                x <= 8,
                mem_wf(mem@),
                mem@ == pre,
                tile_index < 384,
                data@.len() == 8 * x,
                forall|p: int|
                    0 <= p < 8 * x ==> data@[p] == tile_decode(pre.mem, tile_index as int)[p],
            decreases 8 - x,
        {
            let addr: u16 = 0x8000 + (tile_index as u16) * 16 + (x as u16) * 2;
            let a = mem.read(addr);
            let b = mem.read(addr + 1);
            proof {
                reveal(crate::memory::mem_read);
                assert(a == pre.mem[0x8000 + tile_index * 16 + (x as int) * 2]);
                assert(b == pre.mem[0x8000 + tile_index * 16 + (x as int) * 2 + 1]);
            }
            let mut j: usize = 0;
            while j < 8
                invariant
                    j <= 8,
                    x < 8,
                    data@.len() == 8 * x + j,
                    forall|p: int|
                        0 <= p < 8 * x ==> data@[p] == tile_decode(pre.mem, tile_index as int)[p],
                    forall|p: int|
                        8 * x <= p < 8 * x + j ==> data@[p] == tile_pixel_spec(
                            a,
                            b,
                            p - 8 * (x as int),
                        ),
                    a == pre.mem[0x8000 + tile_index * 16 + (x as int) * 2],
                    b == pre.mem[0x8000 + tile_index * 16 + (x as int) * 2 + 1],
                    tile_index < 384,
                    pre.mem.len() == 0x10000,
                decreases 8 - j,
            {
                let p = pixel_of(a, b, j as u8);
                data.push(p);
                j = j + 1;
            }
            proof {
                assert forall|p: int| 8 * x <= p < 8 * (x + 1) implies data@[p] == tile_decode(
                    pre.mem,
                    tile_index as int,
                )[p] by {
                    assert(p / 8 == x as int);
                    assert(p % 8 == p - 8 * (x as int));
                }
            }
            x = x + 1;
        }
        proof {
            assert(data@ =~= tile_decode(pre.mem, tile_index as int));
        }
        let mut copy: Vec<u8> = Vec::new();
        let mut i: usize = 0;
        while i < data.len()
            invariant
                i <= data@.len(),
                copy@ =~= data@.take(i as int),
            decreases data@.len() - i,
        {
            let bb = data[i];
            copy.push(bb);
            i = i + 1;
        }
        proof {
            assert(copy@ =~= data@);
        }
        mem.tile_cache[tile_index] = Option::Some(Tile { data: copy });
        proof {
            assert(mem@.tiles =~= pre.tiles.update(
                tile_index as int,
                Option::Some(tile_decode(pre.mem, tile_index as int)),
            ));
        }
        Tile { data }
    }

    /// The executable side of `spec_color`.
    pub fn get_color(&self, index: u8, c_0: u8, c_1: u8, c_2: u8, c_3: u8) -> (rgb: (u8, u8, u8))
        ensures
            rgb == spec_color(index, c_0, c_1, c_2, c_3),
    {
        if index == 0 {
            PPU::get_rgb(c_0)
        } else if index == 1 {
            PPU::get_rgb(c_1)
        } else if index == 2 {
            PPU::get_rgb(c_2)
        } else if index == 3 {
            PPU::get_rgb(c_3)
        } else {
            (0, 0, 0)
        }
    }

    /// The executable side of `spec_rgb`.
    pub fn get_rgb(color: u8) -> (rgb: (u8, u8, u8))
        ensures
            rgb == spec_rgb(color),
    {
        if color == 0 {
            (0xe2, 0xf3, 0xe4)
        } else if color == 1 {
            (0x94, 0xe3, 0x44)
        } else if color == 2 {
            (0x46, 0x87, 0x8f)
        } else if color == 3 {
            (0x33, 0x2c, 0x50)
        } else {
            (0, 0, 0)
        }
    }

    /// The pixel values of one tile row, given its two bit planes:
    /// most-significant column first, plane `a` contributing 1 and
    /// plane `b` contributing 2.
    pub fn count_bits(a: u8, b: u8) -> (r: Vec<u8>)
        ensures
            r@.len() == 8,
            forall|j: int| 0 <= j < 8 ==> r@[j] == tile_pixel_spec(a, b, j),
    {
        let mut r: Vec<u8> = Vec::new();
        let mut j: usize = 0;
        while j < 8
            invariant
                j <= 8,
                r@.len() == j,
                forall|k: int| 0 <= k < j ==> r@[k] == tile_pixel_spec(a, b, k),
            decreases 8 - j,
        {
            let p = pixel_of(a, b, j as u8);
            r.push(p);
            j = j + 1;
        }
        r
    }

    /// Writes one RGBA pixel of scanline `ly`.
    fn put_pixel(&mut self, sx: usize, ly: u8, rgb: (u8, u8, u8))
        requires
            ppu_wf(*old(self)),
            sx < 160,
            ly < 144,
        ensures
            ppu_wf(*final(self)),
            final(self).window_counter == old(self).window_counter,
            final(self).screen@[(sx + ly * 160) * 4] == rgb.0,
            final(self).screen@[(sx + ly * 160) * 4 + 1] == rgb.1,
            final(self).screen@[(sx + ly * 160) * 4 + 2] == rgb.2,
            final(self).screen@[(sx + ly * 160) * 4 + 3] == 0xffu8,
            forall|i: int|
                0 <= i < 160 * 144 * 4 && !((sx + ly * 160) * 4 <= i < (sx + ly * 160) * 4 + 4)
                    ==> final(self).screen@[i] == old(self).screen@[i],
            forall|i: int|
                0 <= i < 160 * 144 * 4 && outside_row(i, ly as int) ==> final(self).screen@[i]
                    == old(self).screen@[i],
    {
        let pos = (sx + (ly as usize) * 160) * 4;
        self.screen[pos] = rgb.0;
        self.screen[pos + 1] = rgb.1;
        self.screen[pos + 2] = rgb.2;
        self.screen[pos + 3] = 0xff;
    }

    /// Renders the background and, when enabled, the window overlay of
    /// one visible scanline: tile-map lookup per LCDC bits 3/6, signed
    /// or unsigned tile ids per bit 4, SCY/SCX scrolling with
    /// wraparound, and the BGP palette.  With the display enabled
    /// every pixel of row `ly` ends as `scanline_pixel_ok` says; with
    /// it disabled the fill leaves the first shade.  The window line
    /// counter advances exactly when the window is drawn.
    #[verifier::spinoff_prover]
    #[verifier::rlimit(100)]
    #[verifier::loop_isolation(false)]
    pub fn draw_background_line(&mut self, mem: &mut Memory, ly: u8, lcdc: u8)
        requires
            ppu_wf(*old(self)),
            mem_wf(old(mem)@),
            ly < 144,
        ensures
            ppu_wf(*final(self)),
            mem_wf(final(mem)@),
            render_frame(old(mem)@, final(mem)@),
            forall|i: int|
                0 <= i < 160 * 144 * 4 && outside_row(i, ly as int) ==> final(self).screen@[i]
                    == old(self).screen@[i],
            lcdc & 0x1 != 0 ==> forall|j: int|
                0 <= j < 160 ==> scanline_pixel_ok(
                    final(self).screen@,
                    old(mem)@,
                    lcdc,
                    old(self).window_counter,
                    ly,
                    j,
                ),
            final(self).window_counter == (if lcdc & 0x1 != 0 && spec_window_drawn(
                old(mem)@,
                lcdc,
                ly,
            ) {
                ((old(self).window_counter + 1) % 256) as u8
            } else {
                old(self).window_counter
            }),
            lcdc & 0x1 == 0 ==> forall|j: int|
                0 <= j < 160 ==> blank_pixel_ok(final(self).screen@, ly, j),
    {
        let ghost pre = mem@;
        if lcdc & 0x1 == 0 {
            let mut x: usize = 0;
            while x < 160
                invariant
                    x <= 160,
                    ppu_wf(*self),
                    ly < 144,
                    self.window_counter == old(self).window_counter,
                    forall|i: int|
                        0 <= i < 160 * 144 * 4 && outside_row(i, ly as int) ==> self.screen@[i]
                            == old(self).screen@[i],
                    forall|j: int| 0 <= j < x ==> blank_pixel_ok(self.screen@, ly, j),
                    forall|j: int|
                        x <= j < 160 ==> pixel_unchanged(self.screen@, old(self).screen@, ly, j),
                decreases 160 - x,
            {
                let rgb = PPU::get_rgb(0);
                let ghost s_prev = self.screen@;
                self.put_pixel(x, ly, rgb);
                proof {
                    assert forall|j: int| 0 <= j < 160 && j != x implies pixel_unchanged(
                        self.screen@,
                        s_prev,
                        ly,
                        j,
                    ) by {
                        assert((j + ly * 160) * 4 + 3 < (x + ly * 160) * 4 || (j + ly * 160) * 4
                            > (x + ly * 160) * 4 + 3);
                    }
                    assert(blank_pixel_ok(self.screen@, ly, x as int));
                    assert forall|j: int| 0 <= j < x + 1 implies blank_pixel_ok(
                        self.screen@,
                        ly,
                        j,
                    ) by {
                        if j < x {
                            assert(blank_pixel_ok(s_prev, ly, j));
                            assert(pixel_unchanged(self.screen@, s_prev, ly, j));
                        }
                    }
                    assert forall|j: int| x + 1 <= j < 160 implies pixel_unchanged(
                        self.screen@,
                        old(self).screen@,
                        ly,
                        j,
                    ) by {
                        assert(pixel_unchanged(s_prev, old(self).screen@, ly, j));
                        assert(pixel_unchanged(self.screen@, s_prev, ly, j));
                    }
                }
                x = x + 1;
            }
            return;
        }
        let data_area = lcdc & 0b10000 > 0;
        let map_area = lcdc & 0b1000 > 0;
        let window_area = lcdc & 0b1000000 > 0;
        let area_addr: u16 = if map_area {
            0x9c00
        } else {
            0x9800
        };
        let window_addr: u16 = if window_area {
            0x9c00
        } else {
            0x9800
        };
        let window_enable = lcdc & 0b100000 > 0;
        let wy: i32 = if window_enable {
            mem.read(0xff4a) as i32
        } else {
            0
        };
        let wx: i32 = if window_enable && wy <= ly as i32 {
            mem.read(0xff4b) as i32 - 7
        } else {
            0
        };
        let scy = mem.read(0xff42) as usize;
        let scx = mem.read(0xff43) as usize;
        let bg_palette = mem.read(0xff47);
        let c_3 = bg_palette >> 6;
        let c_2 = (bg_palette >> 4) & 0b11;
        let c_1 = (bg_palette >> 2) & 0b11;
        let c_0 = bg_palette & 0b11;
        let y = scy + (ly as usize);
        let mut sx: usize = 0;
        while sx < 160
            invariant
                sx <= 160,
                scx <= 255,
                ly < 144,
                ppu_wf(*self),
                mem_wf(mem@),
                render_frame(pre, mem@),
                y == scy + ly,
                self.window_counter == old(self).window_counter,
                forall|i: int|
                    0 <= i < 160 * 144 * 4 && outside_row(i, ly as int) ==> self.screen@[i]
                        == old(self).screen@[i],
                scy == mem_read(pre, 0xff42),
                scx == mem_read(pre, 0xff43),
                bg_palette == mem_read(pre, 0xff47),
                forall|j: int| 0 <= j < sx ==> bg_pixel_ok(self.screen@, pre, lcdc, ly, j),
            decreases 160 - sx,
        {
            let x = scx + sx;
            let tx = x % 256;
            let ty = y % 256;
            let t_index = (tx / 8) + ((ty / 8) * 32);
            proof {
                assert(t_index <= 1023);
            }
            let taddr: usize = (area_addr as usize) + t_index;
            let t_byte = mem.read(taddr as u16);
            let mut t_id = t_byte as usize;
            if !data_area && t_id < 128 {
                t_id = t_id + 256;
            }
            let ghost mid = mem@;
            let tile = self.get_tile(mem, t_id);
            proof {
                lemma_tiles_extend_trans(pre.tiles, mid.tiles, mem@.tiles, pre.mem);
            }
            let tile_pos = (tx % 8) + ((ty % 8) * 8);
            let pix = tile.data[tile_pos];
            let rgb = self.get_color(pix, c_0, c_1, c_2, c_3);
            let ghost screen0 = self.screen@;
            self.put_pixel(sx, ly, rgb);
            proof {
                reveal(crate::memory::mem_read);
                reveal(bg_rgb);
                assert forall|j: int| 0 <= j < sx implies bg_pixel_ok(
                    self.screen@,
                    pre,
                    lcdc,
                    ly,
                    j,
                ) by {
                    assert(bg_pixel_ok(screen0, pre, lcdc, ly, j));
                    assert((j + ly * 160) * 4 + 3 < (sx + ly * 160) * 4);
                }
                let xs = (mem_read(pre, 0xff43) + sx) % 256;
                let ys = (mem_read(pre, 0xff42) + ly) % 256;
                assert(tx == xs);
                assert(ty == ys);
                let area: int = if lcdc & 0b1000 > 0 {
                    0x9c00int
                } else {
                    0x9800int
                };
                assert(area == area_addr as int);
                assert(t_index == tx / 8 + (ty / 8) * 32);
                assert(xs / 8 == tx / 8);
                assert((ys / 8) * 32 == (ty / 8) * 32);
                assert(taddr == area + xs / 8 + (ys / 8) * 32);
                assert(t_byte == pre.mem[area + xs / 8 + (ys / 8) * 32]);
                assert(tile.data@ == tile_decode(pre.mem, t_id as int));
                assert(pix == tile_decode(pre.mem, t_id as int)[(xs % 8) + (ys % 8) * 8]);
                assert(bg_pixel_ok(self.screen@, pre, lcdc, ly, sx as int));
            }
            sx = sx + 1;
        }
        if window_enable && ly as i32 >= wy && wy < 144 && wx < 166 {
            let ghost wc0 = self.window_counter;
            let yw: i32 = self.window_counter as i32;
            self.window_counter = self.window_counter.wrapping_add(1);
            let mut xw: i32 = wx;
            while xw < 160
                invariant
                    wx <= xw,
                    xw <= 166,
                    -7 <= wx,
                    wx < 166,
                    0 <= yw <= 255,
                    ly < 144,
                    ppu_wf(*self),
                    mem_wf(mem@),
                    render_frame(pre, mem@),
                    self.window_counter == ((old(self).window_counter + 1) % 256) as u8,
                    yw == wc0 as int,
                    wc0 == old(self).window_counter,
                    wx == mem_read(pre, 0xff4b) - 7,
                    forall|i: int|
                        0 <= i < 160 * 144 * 4 && outside_row(i, ly as int) ==> self.screen@[i]
                            == old(self).screen@[i],
                    forall|j: int|
                        0 <= j < 160 && wx <= j < xw ==> win_pixel_ok(
                            self.screen@,
                            pre,
                            lcdc,
                            wc0,
                            ly,
                            j,
                        ),
                    forall|j: int|
                        0 <= j < 160 && !(wx <= j < xw) ==> bg_pixel_ok(
                            self.screen@,
                            pre,
                            lcdc,
                            ly,
                            j,
                        ),
                decreases 166 - xw,
            {
                let ghost s_prev = self.screen@;
                if xw >= 0 {
                    let t_index = (((xw - wx) / 8) + ((yw / 8) * 32)) as usize;
                    proof {
                        assert(t_index <= 1052);
                    }
                    let taddr: usize = (window_addr as usize) + t_index;
                    let t_byte = mem.read(taddr as u16);
                    let mut t_id = t_byte as usize;
                    if !data_area && t_id < 128 {
                        t_id = t_id + 256;
                    }
                    let ghost mid = mem@;
                    let tile = self.get_tile(mem, t_id);
                    proof {
                        lemma_tiles_extend_trans(pre.tiles, mid.tiles, mem@.tiles, pre.mem);
                    }
                    let tile_pos = (((xw - wx) % 8) + ((yw % 8) * 8)) as usize;
                    let pix = tile.data[tile_pos];
                    let rgb = self.get_color(pix, c_0, c_1, c_2, c_3);
                    self.put_pixel(xw as usize, ly, rgb);
                    proof {
                        reveal(crate::memory::mem_read);
                        reveal(win_rgb);
                        let area: int = if lcdc & 0b1000000 > 0 {
                            0x9c00int
                        } else {
                            0x9800int
                        };
                        assert(taddr == area + (xw - wx) / 8 + ((wc0 as int) / 8) * 32);
                        assert(t_byte == pre.mem[area + (xw - wx) / 8 + ((wc0 as int) / 8) * 32]);
                        assert(tile.data@ == tile_decode(pre.mem, t_id as int));
                        assert(pix == tile_decode(pre.mem, t_id as int)[(xw - wx) % 8 + ((
                        wc0 as int) % 8) * 8]);
                        assert(win_pixel_ok(self.screen@, pre, lcdc, wc0, ly, xw as int));
                        assert forall|j: int| 0 <= j < 160 && j != xw implies pixel_unchanged(
                            self.screen@,
                            s_prev,
                            ly,
                            j,
                        ) by {
                            assert((j + ly * 160) * 4 + 3 < (xw + ly * 160) * 4 || (j + ly * 160)
                                * 4 > (xw + ly * 160) * 4 + 3);
                        }
                        assert forall|j: int| 0 <= j < 160 && wx <= j < xw + 1 implies
                            win_pixel_ok(self.screen@, pre, lcdc, wc0, ly, j) by {
                            if j != xw {
                                assert(win_pixel_ok(s_prev, pre, lcdc, wc0, ly, j));
                                assert(pixel_unchanged(self.screen@, s_prev, ly, j));
                            }
                        }
                        assert forall|j: int| 0 <= j < 160 && !(wx <= j < xw + 1) implies
                            bg_pixel_ok(self.screen@, pre, lcdc, ly, j) by {
                            assert(bg_pixel_ok(s_prev, pre, lcdc, ly, j));
                            assert(pixel_unchanged(self.screen@, s_prev, ly, j));
                        }
                    }
                }
                xw = xw + 1;
            }
            proof {
                assert forall|j: int| 0 <= j < 160 implies scanline_pixel_ok(
                    self.screen@,
                    pre,
                    lcdc,
                    old(self).window_counter,
                    ly,
                    j,
                ) by {
                    assert(spec_window_drawn(pre, lcdc, ly));
                    if j >= wx {
                        assert(win_pixel_ok(self.screen@, pre, lcdc, wc0, ly, j));
                    } else {
                        assert(bg_pixel_ok(self.screen@, pre, lcdc, ly, j));
                    }
                }
            }
        } else {
            proof {
                assert(!spec_window_drawn(pre, lcdc, ly));
                assert forall|j: int| 0 <= j < 160 implies scanline_pixel_ok(
                    self.screen@,
                    pre,
                    lcdc,
                    old(self).window_counter,
                    ly,
                    j,
                ) by {
                    assert(bg_pixel_ok(self.screen@, pre, lcdc, ly, j));
                }
            }
        }
    }

    /// Renders the sprites of one visible scanline: all 40 OAM entries
    /// walked in reverse table order so that lower table indices win
    /// on pixel conflicts, with 8x8 or 8x16 size, X/Y flips, the two
    /// object palettes, and color 0 transparent.  With LCDC bit 1 set,
    /// every pixel of row `ly` ends as `sprite_pixel_ok` says: the
    /// lowest-index covering sprite's color, or the incoming pixel
    /// where no sprite shows.
    #[verifier::spinoff_prover]
    #[verifier::rlimit(100)]
    #[verifier::loop_isolation(false)]
    pub fn draw_sprite_line(&mut self, mem: &mut Memory, ly: u8, lcdc: u8)
        requires
            ppu_wf(*old(self)),
            mem_wf(old(mem)@),
            ly < 144,
        ensures
            ppu_wf(*final(self)),
            mem_wf(final(mem)@),
            render_frame(old(mem)@, final(mem)@),
            final(self).window_counter == old(self).window_counter,
            forall|i: int|
                0 <= i < 160 * 144 * 4 && outside_row(i, ly as int) ==> final(self).screen@[i]
                    == old(self).screen@[i],
            lcdc & 0b10 == 0 ==> final(self).screen@ == old(self).screen@,
            lcdc & 0b10 != 0 ==> forall|sx: int|
                0 <= sx < 160 ==> sprite_pixel_ok(
                    final(self).screen@,
                    old(self).screen@,
                    old(mem)@.mem,
                    lcdc,
                    ly,
                    sx,
                    0,
                ),
    {
        let ghost pre = mem@;
        if lcdc & 0b10 == 0 {
            return ;
        }
        let mut i: usize = 40;
        while i > 0
            invariant
                i <= 40,
                mem_wf(mem@),
                render_frame(pre, mem@),
                self.window_counter == old(self).window_counter,
                ppu_wf(*self),
                forall|k: int|
                    0 <= k < 160 * 144 * 4 && outside_row(k, ly as int) ==> self.screen@[k]
                        == old(self).screen@[k],
                forall|sx: int|
                    0 <= sx < 160 ==> sprite_pixel_ok(
                        self.screen@,
                        old(self).screen@,
                        pre.mem,
                        lcdc,
                        ly,
                        sx,
                        i as int,
                    ),
            decreases i,
        {
            i = i - 1;
            let ghost screen_i = self.screen@;
            let index: u16 = 0xfe00 + (i as u16) * 4;
            let y = mem.read(index) as i32 - 16;
            let x = mem.read(index + 1) as i32 - 8;
            let mut tile_id = mem.read(index + 2);
            let sprite_height: i32 = if lcdc & 0b100 > 0 {
                tile_id = tile_id & 0xfe;
                16
            } else {
                8
            };
            proof {
                reveal(crate::memory::mem_read);
                assert(y == pre.mem[0xfe00 + (i as int) * 4] - 16);
                assert(x == pre.mem[0xfe00 + (i as int) * 4 + 1] - 8);
                assert(tile_id as int == (if lcdc & 0b100 > 0 {
                    (pre.mem[0xfe00 + (i as int) * 4 + 2] & 0xfe) as int
                } else {
                    pre.mem[0xfe00 + (i as int) * 4 + 2] as int
                }));
            }
            if (ly as i32) >= y && (ly as i32) < y + sprite_height {
                let attributes = mem.read(index + 3);
                let flip_y = attributes & 0b1000000 > 0;
                let flip_x = attributes & 0b100000 > 0;
                let mut sprite_line = ly as i32 - y;
                if flip_y {
                    sprite_line = sprite_height - sprite_line - 1;
                }
                proof {
                    reveal(crate::memory::mem_read);
                    assert(attributes == pre.mem[0xfe00 + (i as int) * 4 + 3]);
                }
                let ghost mid = mem@;
                let tile = if sprite_line < 8 {
                    self.get_tile(mem, tile_id as usize)
                } else {
                    self.get_tile(mem, (tile_id as usize) + 1)
                };
                let ghost tid: int = if sprite_line < 8 {
                    tile_id as int
                } else {
                    tile_id as int + 1
                };
                proof {
                    lemma_tiles_extend_trans(pre.tiles, mid.tiles, mem@.tiles, pre.mem);
                    assert(tile.data@ == tile_decode(pre.mem, tid));
                }
                let palette = attributes & 0b10000 > 0;
                let palette_addr: u16 = if palette {
                    0xff49
                } else {
                    0xff48
                };
                let obj_palette = mem.read(palette_addr);
                proof {
                    reveal(crate::memory::mem_read);
                    assert(obj_palette == (if attributes & 0b10000 > 0 {
                        pre.mem[0xff49]
                    } else {
                        pre.mem[0xff48]
                    }));
                }
                let c_3 = obj_palette >> 6;
                let c_2 = (obj_palette >> 4) & 0b11;
                let c_1 = (obj_palette >> 2) & 0b11;
                let c_0 = obj_palette & 0b11;
                let mut tx: i32 = 0;
                while tx < 8
                    invariant
                        0 <= tx <= 8,
                        ppu_wf(*self),
                        self.window_counter == old(self).window_counter,
                        forall|k: int|
                            0 <= k < 160 * 144 * 4 && outside_row(k, ly as int) ==> self.screen@[k]
                                == old(self).screen@[k],
                        forall|sx: int|
                            0 <= sx < 160 && !(x <= sx < x + tx) ==> pixel_unchanged(
                                self.screen@,
                                screen_i,
                                ly,
                                sx,
                            ),
                        forall|sx: int|
                            0 <= sx < 160 && x <= sx < x + tx ==> sprite_applied(
                                self.screen@,
                                screen_i,
                                pre.mem,
                                lcdc,
                                ly,
                                sx,
                                i as int,
                            ),
                    decreases 8 - tx,
                {
                    let tile_x = if flip_x {
                        7 - tx
                    } else {
                        tx
                    };
                    let tile_pos = (tile_x + ((sprite_line % 8) * 8)) as usize;
                    let pixel = tile.data[tile_pos];
                    proof {
                        reveal(sprite_rgb_at);
                        if 0 <= x + tx < 160 {
                            if pixel == 0 {
                                assert(sprite_rgb_at(pre.mem, lcdc, ly, i as int, x + tx)
                                    is None);
                            } else {
                                assert(sprite_rgb_at(pre.mem, lcdc, ly, i as int, x + tx)
                                    == Option::Some(
                                    spec_color(
                                        pixel,
                                        obj_palette & 0b11,
                                        (obj_palette >> 2) & 0b11,
                                        (obj_palette >> 4) & 0b11,
                                        obj_palette >> 6,
                                    ),
                                ));
                            }
                        }
                    }
                    let ghost s_prev = self.screen@;
                    if pixel != 0 && x + tx < 160 && x + tx >= 0 {
                        let rgb = self.get_color(pixel, c_0, c_1, c_2, c_3);
                        self.put_pixel((x + tx) as usize, ly, rgb);
                    }
                    proof {
                        assert forall|sx: int| 0 <= sx < 160 && sx != x + tx implies
                            pixel_unchanged(self.screen@, s_prev, ly, sx) by {
                            assert((sx + ly * 160) * 4 + 3 < (x + tx + ly * 160) * 4 || (sx + ly
                                * 160) * 4 > (x + tx + ly * 160) * 4 + 3);
                        }
                        assert forall|sx: int| 0 <= sx < 160 && !(x <= sx < x + tx + 1) implies
                            pixel_unchanged(self.screen@, screen_i, ly, sx) by {
                            assert(pixel_unchanged(s_prev, screen_i, ly, sx));
                            assert(pixel_unchanged(self.screen@, s_prev, ly, sx));
                        }
                        assert forall|sx: int| 0 <= sx < 160 && x <= sx < x + tx + 1 implies
                            sprite_applied(self.screen@, screen_i, pre.mem, lcdc, ly, sx, i as int)
                            by {
                            if sx == x + tx {
                                if pixel != 0 {
                                    assert(sprite_applied(
                                        self.screen@,
                                        screen_i,
                                        pre.mem,
                                        lcdc,
                                        ly,
                                        sx,
                                        i as int,
                                    ));
                                } else {
                                    assert(pixel_unchanged(s_prev, screen_i, ly, sx));
                                    assert(pixel_unchanged(self.screen@, s_prev, ly, sx));
                                    assert(sprite_applied(
                                        self.screen@,
                                        screen_i,
                                        pre.mem,
                                        lcdc,
                                        ly,
                                        sx,
                                        i as int,
                                    ));
                                }
                            } else {
                                assert(sprite_applied(
                                    s_prev,
                                    screen_i,
                                    pre.mem,
                                    lcdc,
                                    ly,
                                    sx,
                                    i as int,
                                ));
                                assert(pixel_unchanged(self.screen@, s_prev, ly, sx));
                            }
                        }
                    }
                    tx = tx + 1;
                }
                proof {
                    assert forall|sx: int| 0 <= sx < 160 implies sprite_pixel_ok(
                        self.screen@,
                        old(self).screen@,
                        pre.mem,
                        lcdc,
                        ly,
                        sx,
                        i as int,
                    ) by {
                        reveal(sprite_rgb_at);
                        assert(sprite_pixel_ok(
                            screen_i,
                            old(self).screen@,
                            pre.mem,
                            lcdc,
                            ly,
                            sx,
                            i as int + 1,
                        ));
                        if !(x <= sx < x + 8) {
                            assert(sprite_rgb_at(pre.mem, lcdc, ly, i as int, sx) is None);
                            assert(sprite_winner(pre.mem, lcdc, ly, sx, i as int)
                                == sprite_winner(pre.mem, lcdc, ly, sx, i as int + 1));
                            assert(pixel_unchanged(self.screen@, screen_i, ly, sx));
                        } else {
                            assert(sprite_applied(
                                self.screen@,
                                screen_i,
                                pre.mem,
                                lcdc,
                                ly,
                                sx,
                                i as int,
                            ));
                            if sprite_rgb_at(pre.mem, lcdc, ly, i as int, sx) is None {
                                assert(sprite_winner(pre.mem, lcdc, ly, sx, i as int)
                                    == sprite_winner(pre.mem, lcdc, ly, sx, i as int + 1));
                            }
                        }
                    }
                }
            } else {
                proof {
                    assert forall|sx: int| 0 <= sx < 160 implies sprite_pixel_ok(
                        self.screen@,
                        old(self).screen@,
                        pre.mem,
                        lcdc,
                        ly,
                        sx,
                        i as int,
                    ) by {
                        reveal(sprite_rgb_at);
                        assert(sprite_pixel_ok(
                            screen_i,
                            old(self).screen@,
                            pre.mem,
                            lcdc,
                            ly,
                            sx,
                            i as int + 1,
                        ));
                        assert(sprite_rgb_at(pre.mem, lcdc, ly, i as int, sx) is None);
                        assert(sprite_winner(pre.mem, lcdc, ly, sx, i as int) == sprite_winner(
                            pre.mem,
                            lcdc,
                            ly,
                            sx,
                            i as int + 1,
                        ));
                    }
                }
            }
        }
    }
}

/// The executable side of `tile_pixel_spec`.
fn pixel_of(a: u8, b: u8, j: u8) -> (p: u8)
    requires
        j < 8,
    ensures
        p == tile_pixel_spec(a, b, j as int),
{
    let mask = 1u8 << (7 - j);
    let lo: u8 = if a & mask != 0 {
        1
    } else {
        0
    };
    let hi: u8 = if b & mask != 0 {
        2
    } else {
        0
    };
    lo + hi
}

} // verus!
