use font8x8::unicode::UnicodeFonts;
use rboy_lego::framebuffer::{Framebuffer, FramebufferConfig};
use rboy_lego::input::KeyEvent;
use rboy_lego::menu::{
    classify_rom, draw_char, draw_text, glyph_or_blank, menu_line, menu_step, platform_name,
    visible_window, GameEntry, MenuUpdate, Platform,
};
use rboy_lego::KeypadKey;

#[test]
fn test_classify_rom_by_extension() {
    let (name, platform) = classify_rom("Tetris.gb").unwrap();
    assert_eq!(name, "Tetris");
    assert_eq!(platform, Platform::GameBoy);

    let (name, platform) = classify_rom("Zelda.gbc").unwrap();
    assert_eq!(name, "Zelda");
    assert_eq!(platform, Platform::GameBoyColor);

    // The extension match ignores case, but only the lowercase suffix is
    // trimmed from the display name.
    let (name, platform) = classify_rom("POKEMON.GBC").unwrap();
    assert_eq!(name, "POKEMON.GBC");
    assert_eq!(platform, Platform::GameBoyColor);

    // Stacked extensions are trimmed repeatedly.
    let (name, _) = classify_rom("a.gbc.gb").unwrap();
    assert_eq!(name, "a");

    assert!(classify_rom("notes.txt").is_none());
    assert!(classify_rom("gb").is_none());
    // A lone leading dot names a hidden file, not an extension.
    assert!(classify_rom(".gb").is_none());
    assert!(classify_rom("").is_none());
}

#[test]
fn test_menu_step_moves_and_launches() {
    let stay = |selected| MenuUpdate { selected, redraw: false, launch: false };
    // Start launches the selected entry when one exists.
    assert_eq!(
        menu_step(1, 3, KeyEvent::Down, KeypadKey::Start),
        MenuUpdate { selected: 1, redraw: false, launch: true }
    );
    assert_eq!(menu_step(0, 0, KeyEvent::Down, KeypadKey::Start), stay(0));
    // Up and down move within the list and ask for a redraw.
    assert_eq!(
        menu_step(2, 3, KeyEvent::Down, KeypadKey::Up),
        MenuUpdate { selected: 1, redraw: true, launch: false }
    );
    assert_eq!(
        menu_step(0, 3, KeyEvent::Down, KeypadKey::Up),
        MenuUpdate { selected: 0, redraw: true, launch: false }
    );
    assert_eq!(
        menu_step(1, 3, KeyEvent::Down, KeypadKey::Down),
        MenuUpdate { selected: 2, redraw: true, launch: false }
    );
    assert_eq!(menu_step(2, 3, KeyEvent::Down, KeypadKey::Down), stay(2));
    // Everything else changes nothing.
    assert_eq!(menu_step(1, 3, KeyEvent::Up, KeypadKey::Start), stay(1));
    assert_eq!(menu_step(1, 3, KeyEvent::Down, KeypadKey::B), stay(1));
}

#[test]
fn test_visible_window_centers_selection() {
    // A 240-pixel display fits 15 lines, two of which are the title and
    // subtitle.
    assert_eq!(visible_window(0, 30, 240), (0, 13));
    assert_eq!(visible_window(10, 30, 240), (4, 13));
    // The window never scrolls past the end of the list.
    assert_eq!(visible_window(29, 30, 240), (17, 13));
    // A short list never scrolls.
    assert_eq!(visible_window(2, 3, 240), (0, 13));
    // A tiny display shows no list lines.
    assert_eq!(visible_window(0, 3, 31), (0, 0));
}

#[test]
fn test_menu_line_text() {
    let entry = GameEntry {
        name: String::from("Tetris"),
        path: String::from("/roms/Tetris.gb"),
        platform: Platform::GameBoy,
    };
    assert_eq!(menu_line(&entry, true), "> Tetris - GameBoy");
    assert_eq!(menu_line(&entry, false), "  Tetris - GameBoy");
    assert_eq!(platform_name(Platform::GameBoyColor), "GameBoyColor");
}

fn small_fb() -> Framebuffer {
    Framebuffer::new(FramebufferConfig {
        path: String::from("/dev/fb1"),
        width: 64,
        height: 32,
        bytes_per_pixel: 2,
        stride_pixels: 64,
    })
    .unwrap()
}

#[test]
fn test_glyph_lookup_matches_font_table() {
    // The glyph wrapper returns the font's rows, not its input: compare
    // against the table directly, and check the blank fallback.
    let a = glyph_or_blank('A');
    assert_eq!(Some(a), font8x8::BASIC_FONTS.get('A'));
    assert_ne!(a, [0u8; 8]);
    assert_eq!(glyph_or_blank('\u{203B}'), [0u8; 8]);
}

#[test]
fn test_draw_char_renders_glyph_cells() {
    let mut fb = small_fb();
    draw_char(&mut fb, 2, 3, 'A', false, 0xFFFF);
    let glyph = font8x8::BASIC_FONTS.get('A').unwrap();
    for row in 0..8 {
        for col in 0..8 {
            let expected = if glyph[row] & (1 << col) != 0 { 0xFFFF } else { 0 };
            assert_eq!(fb.pixels[(3 + row) * 64 + 2 + col], expected);
        }
    }
    // Pixels outside the glyph box are untouched.
    assert_eq!(fb.pixels[0], 0);
    assert_eq!(fb.pixels[20 * 64 + 20], 0);
}

#[test]
fn test_draw_char_inverted_and_blank() {
    let mut fb = small_fb();
    // A blank glyph drawn inverted colors the whole 8x8 box.
    draw_char(&mut fb, 0, 0, ' ', true, 0x1234);
    let glyph = font8x8::BASIC_FONTS.get(' ').unwrap();
    assert_eq!(glyph, [0u8; 8]);
    for row in 0..8 {
        for col in 0..8 {
            assert_eq!(fb.pixels[row * 64 + col], 0x1234);
        }
    }
}

#[test]
fn test_draw_char_clips_at_surface_edge() {
    let mut fb = small_fb();
    let before = fb.pixels.clone();
    // Entirely off the visible surface: nothing changes.
    draw_char(&mut fb, 64, 0, 'A', false, 0xFFFF);
    draw_char(&mut fb, 0, 32, 'A', false, 0xFFFF);
    assert_eq!(fb.pixels, before);
}

#[test]
fn test_draw_text_advances_line() {
    let mut fb = small_fb();
    let mut y = 4usize;
    draw_text(&mut fb, "Hi", 8, &mut y, false, 0xFFFF);
    assert_eq!(y, 20);
    // The two glyph boxes sit side by side.
    let h = font8x8::BASIC_FONTS.get('H').unwrap();
    let i = font8x8::BASIC_FONTS.get('i').unwrap();
    for row in 0..8 {
        for col in 0..8 {
            let eh = if h[row] & (1 << col) != 0 { 0xFFFF } else { 0 };
            let ei = if i[row] & (1 << col) != 0 { 0xFFFF } else { 0 };
            assert_eq!(fb.pixels[(4 + row) * 64 + 8 + col], eh);
            assert_eq!(fb.pixels[(4 + row) * 64 + 16 + col], ei);
        }
    }
}
