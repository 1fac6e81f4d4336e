//! The ROM-selection menu's decisions and drawing: which entry is
//! selected, which slice of the list is visible, the text of each line,
//! and glyph rendering onto the framebuffer through its bounds-checked
//! pixel writes. The binary scans the ROM directory, runs the event loop
//! and plays the boot chime.

use vstd::prelude::*;
use vstd::string::{StrSliceExecFns, StringExecFns};

use crate::framebuffer::{lemma_grid_index_bounds, lemma_grid_index_inj, pixel_at, Framebuffer};
use crate::input::KeyEvent;
use crate::text::{matches_ignore_case, str_eq_ignore_case};
use crate::KeypadKey;

verus! {

/// Height of one text line in pixels.
pub const LINE_H: usize = 16;

/// Width and height of one glyph in pixels.
pub const GLYPH_SIZE: usize = 8;

/// Which console a ROM file is for.
#[derive(Debug, Clone, Copy, PartialEq, Eq, Structural)]
pub enum Platform {
    GameBoy,
    GameBoyColor,
}

/// One entry of the ROM list.
#[derive(Debug)]
pub struct GameEntry {
    /// Display name: the file name with its extension removed.
    pub name: String,
    /// Full path of the ROM file.
    pub path: String,
    pub platform: Platform,
}

/// The platform's display name.
pub open spec fn spec_platform_name(p: Platform) -> Seq<char> {
    match p {
        Platform::GameBoy => "GameBoy"@,
        Platform::GameBoyColor => "GameBoyColor"@,
    }
}

/// Executable form of [`spec_platform_name`].
pub fn platform_name(p: Platform) -> (r: &'static str)
    ensures
        r@ == spec_platform_name(p),
{
    match p {
        Platform::GameBoy => "GameBoy",
        Platform::GameBoyColor => "GameBoyColor",
    }
}

/// What one key event does to the menu.
#[derive(Debug, Clone, Copy, PartialEq, Eq, Structural)]
pub struct MenuUpdate {
    /// The selected entry after the event.
    pub selected: usize,
    /// Whether the list must be redrawn.
    pub redraw: bool,
    /// Whether the selected entry is to be launched.
    pub launch: bool,
}

/// The menu's reaction to one key event: `Start` launches the selected
/// entry when one exists, `Up` and `Down` move the selection within the
/// list and ask for a redraw, everything else changes nothing.
pub open spec fn spec_menu_step(
    selected: usize,
    games_len: usize,
    ev: KeyEvent,
    key: KeypadKey,
) -> MenuUpdate {
    let stay = MenuUpdate { selected, redraw: false, launch: false };
    if ev is Down && key is Start {
        if selected < games_len {
            MenuUpdate { selected, redraw: false, launch: true }
        } else {
            stay
        }
    } else if ev is Down && key is Up {
        MenuUpdate {
            selected: (if selected > 0 {
                (selected - 1) as usize
            } else {
                0
            }),
            redraw: true,
            launch: false,
        }
    } else if ev is Down && key is Down {
        if selected + 1 < games_len {
            MenuUpdate { selected: (selected + 1) as usize, redraw: true, launch: false }
        } else {
            stay
        }
    } else {
        stay
    }
}

/// Executable form of [`spec_menu_step`].
pub fn menu_step(selected: usize, games_len: usize, ev: KeyEvent, key: KeypadKey) -> (r:
    MenuUpdate)
    ensures
        r == spec_menu_step(selected, games_len, ev, key),
{
    match (ev, key) {
        (KeyEvent::Down, KeypadKey::Start) => {
            if selected < games_len {
                MenuUpdate { selected, redraw: false, launch: true }
            } else {
                MenuUpdate { selected, redraw: false, launch: false }
            }
        }
        (KeyEvent::Down, KeypadKey::Up) => {
            MenuUpdate { selected: selected.saturating_sub(1), redraw: true, launch: false }
        }
        (KeyEvent::Down, KeypadKey::Down) => {
            if games_len > 0 && selected < games_len - 1 {
                MenuUpdate { selected: selected + 1, redraw: true, launch: false }
            } else {
                MenuUpdate { selected, redraw: false, launch: false }
            }
        }
        _ => MenuUpdate { selected, redraw: false, launch: false },
    }
}

/// The visible slice of the ROM list: how many lines fit under the title
/// and subtitle, and how many leading entries are scrolled past so the
/// selection sits near the middle while the window stays within the list.
pub fn visible_window(selected: usize, games_len: usize, fb_height: usize) -> (r: (usize, usize))
    ensures
        r.1 == (if fb_height / LINE_H >= 2 {
            fb_height / LINE_H - 2
        } else {
            0
        }),
        ({
            let max_visible = r.1;
            let wanted: usize = (if selected >= max_visible / 2 {
                (selected - max_visible / 2) as usize
            } else {
                0
            });
            let cap: usize = (if games_len >= max_visible {
                (games_len - max_visible) as usize
            } else {
                0
            });
            r.0 == (if wanted <= cap {
                wanted
            } else {
                cap
            })
        }),
{
    let max_visible = (fb_height / LINE_H).saturating_sub(2);
    let wanted = selected.saturating_sub(max_visible / 2);
    let cap = games_len.saturating_sub(max_visible);
    let skip = if wanted <= cap {
        wanted
    } else {
        cap
    };
    (skip, max_visible)
}

/// The text of one menu line: a selection marker, the entry's name and
/// its platform.
pub open spec fn spec_menu_line(entry: GameEntry, is_selected: bool) -> Seq<char> {
    (if is_selected {
        ">"@
    } else {
        " "@
    }) + " "@ + entry.name@ + " - "@ + spec_platform_name(entry.platform)
}

/// Executable form of [`spec_menu_line`].
pub fn menu_line(entry: &GameEntry, is_selected: bool) -> (r: String)
    ensures
        r@ == spec_menu_line(*entry, is_selected),
{
    let mut out = String::from_str(if is_selected {
        ">"
    } else {
        " "
    });
    out.append(" ");
    out.append(entry.name.as_str());
    out.append(" - ");
    out.append(platform_name(entry.platform));
    proof {
        assert(out@ =~= spec_menu_line(*entry, is_selected));
    }
    out
}

/// The glyph the basic 8x8 font table holds for `c`, if any: eight rows
/// of bits, least significant bit leftmost.
pub uninterp spec fn basic_glyph(c: char) -> Option<Seq<u8>>;

/// Relies on font8x8's `BASIC_FONTS.get`: the 8x8 bitmap for `c` looked
/// up in a fixed 128-entry table, a function of the character alone;
/// `None` for a character outside the table.
#[verifier::external_body]
fn basic_font_get(c: char) -> (r: Option<[u8; 8]>)
    ensures
        r matches Some(a) ==> basic_glyph(c) == Some(a@) && a@.len() == 8,
        r is None ==> basic_glyph(c) is None,
{
    font8x8::unicode::UnicodeFonts::get(&font8x8::BASIC_FONTS, c)
}

/// The glyph drawn for `c`: the font's, or the blank glyph for a
/// character outside the table (never a panic in the render path).
pub open spec fn glyph_rows(c: char) -> Seq<u8> {
    match basic_glyph(c) {
        Some(g) => g,
        None => Seq::new(8, |i: int| 0u8),
    }
}

/// Executable form of [`glyph_rows`].
pub fn glyph_or_blank(c: char) -> (r: [u8; 8])
    ensures
        r@ == glyph_rows(c),
        r@.len() == 8,
{
    match basic_font_get(c) {
        Some(a) => a,
        None => {
            let blank: [u8; 8] = [0, 0, 0, 0, 0, 0, 0, 0];
            proof {
                assert(blank@ =~= Seq::new(8, |i: int| 0u8));
            }
            blank
        }
    }
}

/// Whether bit `col` of a glyph row is set; bit 0 is the leftmost pixel.
pub open spec fn glyph_bit(byte: u8, col: u8) -> bool {
    byte & (1u8 << col) != 0
}

/// Whether the glyph cell at `(col, row)` is drawn: the bit as the font
/// has it, or its opposite when drawing inverted.
pub open spec fn glyph_on(g: Seq<u8>, col: int, row: int, invert: bool) -> bool {
    glyph_bit(g[row], col as u8) != invert
}

/// Whether drawing character `c` at `(x, y)` covers destination pixel
/// `(px, py)`: inside the 8x8 glyph box, on the visible surface, and the
/// glyph cell is drawn.
pub open spec fn char_covers(
    fb: Framebuffer,
    x: int,
    y: int,
    c: char,
    invert: bool,
    px: int,
    py: int,
) -> bool {
    &&& x <= px < x + GLYPH_SIZE
    &&& y <= py < y + GLYPH_SIZE
    &&& px < fb.width
    &&& py < fb.height
    &&& glyph_on(glyph_rows(c), px - x, py - y, invert)
}

/// Draw one character's glyph with its top-left cell at `(x, y)`: every
/// drawn cell of the glyph becomes `color`, every other pixel of the
/// surface keeps its value, and cells falling off the visible surface are
/// clipped.
pub fn draw_char(fb: &mut Framebuffer, x: usize, y: usize, c: char, invert: bool, color: u16)
    requires
        old(fb).wf(),
        x + GLYPH_SIZE <= usize::MAX,
        y + GLYPH_SIZE <= usize::MAX,
    ensures
        final(fb).wf(),
        final(fb).width == old(fb).width,
        final(fb).height == old(fb).height,
        final(fb).stride == old(fb).stride,
        final(fb).pixels@.len() == old(fb).pixels@.len(),
        forall|px: int, py: int|
            0 <= px < old(fb).stride && 0 <= py < old(fb).height ==> #[trigger] pixel_at(
                final(fb).pixels@,
                old(fb).stride as int,
                px,
                py,
            ) == (if char_covers(*old(fb), x as int, y as int, c, invert, px, py) {
                color
            } else {
                pixel_at(old(fb).pixels@, old(fb).stride as int, px, py)
            }),
{
    let ghost o = *old(fb);
    let glyph = glyph_or_blank(c);
    let mut row: usize = 0;
    while row < GLYPH_SIZE
        invariant
            o.wf(),
            fb.width == o.width,
            fb.height == o.height,
            fb.stride == o.stride,
            fb.pixels@.len() == o.pixels@.len(),
            x + GLYPH_SIZE <= usize::MAX,
            y + GLYPH_SIZE <= usize::MAX,
            row <= GLYPH_SIZE,
            glyph@ == glyph_rows(c),
            glyph@.len() == 8,
            forall|px: int, py: int|
                0 <= px < o.stride && 0 <= py < o.height ==> #[trigger] pixel_at(
                    fb.pixels@,
                    o.stride as int,
                    px,
                    py,
                ) == (if py - y < row && char_covers(o, x as int, y as int, c, invert, px, py) {
                    color
                } else {
                    pixel_at(o.pixels@, o.stride as int, px, py)
                }),
        decreases GLYPH_SIZE - row,
    {
        let bits = glyph[row];
        let mut col: usize = 0;
        while col < GLYPH_SIZE
            invariant
                o.wf(),
                fb.width == o.width,
                fb.height == o.height,
                fb.stride == o.stride,
                fb.pixels@.len() == o.pixels@.len(),
                x + GLYPH_SIZE <= usize::MAX,
                y + GLYPH_SIZE <= usize::MAX,
                row < GLYPH_SIZE,
                col <= GLYPH_SIZE,
                glyph@ == glyph_rows(c),
                glyph@.len() == 8,
                bits == glyph@[row as int],
                forall|px: int, py: int|
                    0 <= px < o.stride && 0 <= py < o.height ==> #[trigger] pixel_at(
                        fb.pixels@,
                        o.stride as int,
                        px,
                        py,
                    ) == (if (py - y < row || (py - y == row && px - x < col)) && char_covers(
                        o,
                        x as int,
                        y as int,
                        c,
                        invert,
                        px,
                        py,
                    ) {
                        color
                    } else {
                        pixel_at(o.pixels@, o.stride as int, px, py)
                    }),
            decreases GLYPH_SIZE - col,
        {
            let col_u8: u8 = col as u8;
            let mask = bits & (1u8 << col_u8);
            let on = (!invert && mask != 0) || (invert && mask == 0);
            proof {
                assert(on == glyph_on(glyph_rows(c), col as int, row as int, invert));
            }
            let ghost before = fb.pixels@;
            if on {
                fb.put_pixel(x + col, y + row, color);
            }
            proof {
                let tx = x + col;
                let ty = y + row;
                assert forall|px: int, py: int|
                    0 <= px < o.stride && 0 <= py < o.height implies #[trigger] pixel_at(
                    fb.pixels@,
                    o.stride as int,
                    px,
                    py,
                ) == (if (py - y < row || (py - y == row && px - x < col + 1)) && char_covers(
                    o,
                    x as int,
                    y as int,
                    c,
                    invert,
                    px,
                    py,
                ) {
                    color
                } else {
                    pixel_at(o.pixels@, o.stride as int, px, py)
                }) by {
                    lemma_grid_index_bounds(px, py, o.stride as int, o.height as int);
                    assert(pixel_at(before, o.stride as int, px, py) == (if (py - y < row || (py
                        - y == row && px - x < col)) && char_covers(
                        o,
                        x as int,
                        y as int,
                        c,
                        invert,
                        px,
                        py,
                    ) {
                        color
                    } else {
                        pixel_at(o.pixels@, o.stride as int, px, py)
                    }));
                    if on && tx < o.width && ty < o.height {
                        lemma_grid_index_bounds(tx as int, ty as int, o.stride as int,
                            o.height as int);
                        if py * o.stride + px == ty * o.stride + tx {
                            lemma_grid_index_inj(px, py, tx as int, ty as int, o.stride as int);
                        } else {
                            assert(pixel_at(fb.pixels@, o.stride as int, px, py) == pixel_at(
                                before,
                                o.stride as int,
                                px,
                                py,
                            ));
                        }
                    } else {
                        assert(fb.pixels@ == before);
                    }
                }
            }
            col = col + 1;
        }
        row = row + 1;
    }
}

/// Draw a line of text with its top-left corner at `(x, y)`, one glyph
/// box per character, left to right, and advance `y` by one text line.
/// Pixels outside the drawn glyph cells keep their value; anything off
/// the visible surface is clipped.
pub fn draw_text(
    fb: &mut Framebuffer,
    text: &str,
    x: usize,
    y: &mut usize,
    invert: bool,
    color: u16,
)
    requires
        old(fb).wf(),
        x + GLYPH_SIZE * text@.len() <= usize::MAX,
        *old(y) + LINE_H <= usize::MAX,
    ensures
        final(fb).wf(),
        final(fb).width == old(fb).width,
        final(fb).height == old(fb).height,
        final(fb).stride == old(fb).stride,
        final(fb).pixels@.len() == old(fb).pixels@.len(),
        *final(y) == *old(y) + LINE_H,
        forall|px: int, py: int|
            0 <= px < old(fb).stride && 0 <= py < old(fb).height ==> #[trigger] pixel_at(
                final(fb).pixels@,
                old(fb).stride as int,
                px,
                py,
            ) == (if x <= px < x + GLYPH_SIZE * text@.len() && char_covers(
                *old(fb),
                x + GLYPH_SIZE * ((px - x) / (GLYPH_SIZE as int)),
                *old(y) as int,
                text@[(px - x) / (GLYPH_SIZE as int)],
                invert,
                px,
                py,
            ) {
                color
            } else {
                pixel_at(old(fb).pixels@, old(fb).stride as int, px, py)
            }),
{
    let ghost o = *old(fb);
    let ty: usize = *y;
    let n = text.unicode_len();
    let mut i: usize = 0;
    while i < n
        invariant
            o.wf(),
            fb.width == o.width,
            fb.height == o.height,
            fb.stride == o.stride,
            fb.pixels@.len() == o.pixels@.len(),
            n == text@.len(),
            i <= n,
            x + GLYPH_SIZE * n <= usize::MAX,
            ty + LINE_H <= usize::MAX,
            forall|px: int, py: int|
                0 <= px < o.stride && 0 <= py < o.height ==> #[trigger] pixel_at(
                    fb.pixels@,
                    o.stride as int,
                    px,
                    py,
                ) == (if x <= px < x + GLYPH_SIZE * i && char_covers(
                    o,
                    x + GLYPH_SIZE * ((px - x) / (GLYPH_SIZE as int)),
                    ty as int,
                    text@[(px - x) / (GLYPH_SIZE as int)],
                    invert,
                    px,
                    py,
                ) {
                    color
                } else {
                    pixel_at(o.pixels@, o.stride as int, px, py)
                }),
        decreases n - i,
    {
        let c = text.get_char(i);
        let cx = x + i * GLYPH_SIZE;
        let ghost before = fb.pixels@;
        draw_char(fb, cx, ty, c, invert, color);
        proof {
            assert forall|px: int, py: int|
                0 <= px < o.stride && 0 <= py < o.height implies #[trigger] pixel_at(
                fb.pixels@,
                o.stride as int,
                px,
                py,
            ) == (if x <= px < x + GLYPH_SIZE * (i + 1) && char_covers(
                o,
                x + GLYPH_SIZE * ((px - x) / (GLYPH_SIZE as int)),
                ty as int,
                text@[(px - x) / (GLYPH_SIZE as int)],
                invert,
                px,
                py,
            ) {
                color
            } else {
                pixel_at(o.pixels@, o.stride as int, px, py)
            }) by {
                if cx <= px < cx + GLYPH_SIZE {
                    let d = px - cx;
                    assert((px - x) / (GLYPH_SIZE as int) == i && (px - x) % (GLYPH_SIZE as int)
                        == d) by (nonlinear_arith)
                        requires
                            0 <= d < GLYPH_SIZE,
                            px - x == GLYPH_SIZE * i + d,
                            0 <= i,
                    ;
                } else if x <= px < cx {
                    assert((px - x) / (GLYPH_SIZE as int) < i) by (nonlinear_arith)
                        requires
                            0 <= px - x,
                            px - x < GLYPH_SIZE * i,
                    ;
                    assert(pixel_at(fb.pixels@, o.stride as int, px, py) == pixel_at(
                        before,
                        o.stride as int,
                        px,
                        py,
                    ));
                }
            }
        }
        i = i + 1;
    }
    *y = ty + LINE_H;
}

/// Index of the last `.` in a file name, or -1 when there is none.
pub open spec fn last_dot(s: Seq<char>) -> int
    decreases s.len(),
{
    if s.len() == 0 {
        -1
    } else if s.last() == '.' {
        s.len() - 1
    } else {
        last_dot(s.drop_last())
    }
}

/// Whether `s` ends with `suffix`.
pub open spec fn ends_with(s: Seq<char>, suffix: Seq<char>) -> bool {
    s.len() >= suffix.len() && s.skip(s.len() - suffix.len()) == suffix
}

/// `s` with every trailing repetition of `suffix` removed.
pub open spec fn strip_all(s: Seq<char>, suffix: Seq<char>) -> Seq<char>
    decreases s.len(),
{
    if suffix.len() > 0 && ends_with(s, suffix) {
        strip_all(s.take(s.len() - suffix.len()), suffix)
    } else {
        s
    }
}

/// A position holding `.` with nothing but dot-free text after it is the
/// last dot.
proof fn lemma_last_dot_at(s: Seq<char>, k: int)
    requires
        -1 <= k < s.len() || (k == -1 && s.len() == 0),
        k >= 0 ==> s[k] == '.',
        forall|m: int| k < m < s.len() ==> s[m] != '.',
    ensures
        last_dot(s) == k,
    decreases s.len(),
{
    if s.len() > 0 {
        if s.last() == '.' {
            assert(k == s.len() - 1);
        } else {
            assert(k < s.len() - 1);
            lemma_last_dot_at(s.drop_last(), k);
        }
    }
}

/// What a directory entry's file name means for the ROM list: a name
/// whose extension (the text after the last dot, with at least one
/// character before it) reads `gb` or `gbc` in any ASCII case is a ROM
/// for the matching platform, listed under its name with every trailing
/// `.gb` and then every trailing `.gbc` removed. Anything else is
/// skipped.
pub open spec fn spec_classify(s: Seq<char>) -> Option<(Seq<char>, Platform)> {
    let d = last_dot(s);
    if d < 1 {
        None
    } else {
        let ext = s.skip(d + 1);
        if matches_ignore_case(ext, "gb"@) {
            Some((strip_all(strip_all(s, ".gb"@), ".gbc"@), Platform::GameBoy))
        } else if matches_ignore_case(ext, "gbc"@) {
            Some((strip_all(strip_all(s, ".gb"@), ".gbc"@), Platform::GameBoyColor))
        } else {
            None
        }
    }
}

/// Whether `s` ends with `suffix`, comparing characters.
fn str_ends_with(s: &str, suffix: &str) -> (r: bool)
    ensures
        r == ends_with(s@, suffix@),
{
    let n = s.unicode_len();
    let m = suffix.unicode_len();
    if m > n {
        return false;
    }
    let mut i: usize = 0;
    while i < m
        invariant
            n == s@.len(),
            m == suffix@.len(),
            m <= n,
            i <= m,
            forall|j: int| 0 <= j < i ==> s@[n - m + j] == suffix@[j],
        decreases m - i,
    {
        if s.get_char(n - m + i) != suffix.get_char(i) {
            assert(s@.skip(n - m as int)[i as int] != suffix@[i as int]);
            return false;
        }
        i = i + 1;
    }
    proof {
        assert(s@.skip(n - m as int) =~= suffix@);
    }
    true
}

/// Classify a directory entry's file name for the ROM list; see
/// [`spec_classify`].
pub fn classify_rom(name: &str) -> (r: Option<(String, Platform)>)
    ensures
        r is Some <==> spec_classify(name@) is Some,
        r matches Some(p) ==> spec_classify(name@) matches Some(q) && p.0@ == q.0 && p.1
            == q.1,
{
    proof {
        reveal_strlit(".gb");
        reveal_strlit(".gbc");
    }
    let n = name.unicode_len();
    // Find the last dot.
    let mut j: usize = n;
    let mut dot: Option<usize> = None;
    while j > 0
        invariant_except_break
            n == name@.len(),
            j <= n,
            dot is None,
            forall|m: int| j <= m < n ==> name@[m] != '.',
        ensures
            n == name@.len(),
            (match dot {
                Some(d) => d < n && name@[d as int] == '.' && forall|m: int|
                    d < m < n ==> name@[m] != '.',
                None => forall|m: int| 0 <= m < n ==> name@[m] != '.',
            }),
        decreases j,
    {
        if name.get_char(j - 1) == '.' {
            dot = Some(j - 1);
            break;
        }
        j = j - 1;
    }
    let d = match dot {
        Some(d) => {
            proof {
                lemma_last_dot_at(name@, d as int);
            }
            d
        }
        None => {
            proof {
                lemma_last_dot_at(name@, -1);
            }
            return None;
        }
    };
    if d < 1 {
        return None;
    }
    let ext = name.substring_char(d + 1, n);
    let platform = if str_eq_ignore_case(ext, "gb") {
        Platform::GameBoy
    } else if str_eq_ignore_case(ext, "gbc") {
        Platform::GameBoyColor
    } else {
        return None;
    };
    // Remove every trailing `.gb`, then every trailing `.gbc`.
    let mut cur: &str = name;
    while str_ends_with(cur, ".gb")
        invariant
            strip_all(cur@, ".gb"@) == strip_all(name@, ".gb"@),
            ".gb"@.len() == 3,
        decreases cur@.len(),
    {
        proof {
            assert(cur@.take(cur@.len() - 3) =~= cur@.subrange(0, cur@.len() - 3));
        }
        cur = cur.substring_char(0, cur.unicode_len() - 3);
    }
    proof {
        assert(cur@ == strip_all(name@, ".gb"@));
    }
    let ghost mid = cur@;
    while str_ends_with(cur, ".gbc")
        invariant
            strip_all(cur@, ".gbc"@) == strip_all(mid, ".gbc"@),
            ".gbc"@.len() == 4,
        decreases cur@.len(),
    {
        proof {
            assert(cur@.take(cur@.len() - 4) =~= cur@.subrange(0, cur@.len() - 4));
        }
        cur = cur.substring_char(0, cur.unicode_len() - 4);
    }
    proof {
        assert(cur@ == strip_all(strip_all(name@, ".gb"@), ".gbc"@));
    }
    Some((String::from_str(cur), platform))
}

} // verus!
