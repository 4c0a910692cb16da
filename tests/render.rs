use fonotes::{
    center_offset, compose_frame, fit_font_size, fits, glyph_canvas, image_canvas, line_height_for,
    render_line, split_lines, stack_lines, text_color, tint_glyph, Canvas, ClipboardSnapshot,
    GlyphBitmap, PlacedGlyph, Rgb,
};

const RED: Rgb = Rgb { r: 255, g: 0, b: 0 };

fn bitmap(width: u32, height: u32, value: u8) -> GlyphBitmap {
    GlyphBitmap { width, height, coverage: vec![value; (width * height) as usize] }
}

fn chars(s: &str) -> Vec<char> {
    s.chars().collect()
}

#[test]
fn lines_split_on_breaks() {
    assert_eq!(split_lines("ab\ncd"), vec![chars("ab"), chars("cd")]);
    assert_eq!(split_lines(""), vec![chars("")]);
    assert_eq!(split_lines("\n"), vec![chars(""), chars("")]);
    assert_eq!(split_lines("a\n\nb\n"), vec![chars("a"), chars(""), chars("b"), chars("")]);
    assert_eq!(split_lines("héllo\twörld"), vec![chars("héllo\twörld")]);
}

#[test]
fn lines_rejoin_to_the_text() {
    for text in ["", "one", "one\ntwo", "\n\n", "x\ny\nz\n", "tab\there\nü"] {
        let lines = split_lines(text);
        let joined: Vec<String> = lines.iter().map(|l| l.iter().collect()).collect();
        assert_eq!(joined.join("\n"), text);
        assert_eq!(lines.len(), text.matches('\n').count() + 1);
    }
}

#[test]
fn glyph_is_tinted_with_coverage_as_alpha() {
    let b = GlyphBitmap { width: 2, height: 1, coverage: vec![10, 200] };
    let c = tint_glyph(&b, Rgb { r: 1, g: 2, b: 3 });
    assert_eq!((c.width(), c.height()), (2, 1));
    assert_eq!(c.bytes(), &[1, 2, 3, 10, 1, 2, 3, 200]);
    assert_eq!(c.pixel(1, 0), (1, 2, 3, 200));
}

#[test]
fn empty_glyph_is_a_placeholder() {
    let c = tint_glyph(&bitmap(0, 0, 0), RED);
    assert_eq!((c.width(), c.height()), (1, 1));
    assert_eq!(c.bytes(), &[0, 0, 0, 0]);
}

#[test]
fn spaces_and_tabs_are_blank() {
    let b = bitmap(3, 3, 255);
    let space = glyph_canvas(' ', 12, &b, RED);
    assert_eq!((space.width(), space.height()), (12, 12));
    assert!(space.bytes().iter().all(|v| *v == 0));
    let tab = glyph_canvas('\t', 12, &b, RED);
    assert_eq!((tab.width(), tab.height()), (24, 12));
    assert!(tab.bytes().iter().all(|v| *v == 0));
    let x = glyph_canvas('x', 12, &b, RED);
    assert_eq!((x.width(), x.height()), (3, 3));
    assert_eq!(x.pixel(2, 2), (255, 0, 0, 255));
    let zero = glyph_canvas(' ', 0, &b, RED);
    assert_eq!((zero.width(), zero.height()), (1, 1));
}

#[test]
fn line_spans_its_glyph_boxes() {
    let glyphs = vec![
        PlacedGlyph { ch: 'a', x: 0, y: 2, width: 3, height: 4, bitmap: bitmap(3, 4, 255) },
        PlacedGlyph { ch: 'b', x: 4, y: 0, width: 2, height: 5, bitmap: bitmap(2, 5, 255) },
    ];
    let line = render_line(&glyphs, 10, RED);
    assert_eq!((line.width(), line.height()), (6, 6));
    // Opaque glyph pixels land where the layout put them.
    assert_eq!(line.pixel(0, 2), (255, 0, 0, 255));
    assert_eq!(line.pixel(5, 0), (255, 0, 0, 255));
    assert_eq!(line.pixel(3, 0), (0, 0, 0, 0));
    assert_eq!(line.pixel(0, 0), (0, 0, 0, 0));
}

#[test]
fn empty_line_is_a_placeholder() {
    let line = render_line(&vec![], 10, RED);
    assert_eq!((line.width(), line.height()), (1, 1));
}

#[test]
fn block_height_is_line_count_times_line_height() {
    let lines = vec![Canvas::blank(5, 3), Canvas::blank(9, 10), Canvas::placeholder()];
    let block = stack_lines(&lines, 12);
    assert_eq!((block.width(), block.height()), (9, 36));
    let none = stack_lines(&lines, 0);
    assert_eq!((none.width(), none.height()), (1, 1));
}

#[test]
fn lines_are_bottom_aligned_in_their_slots() {
    let dot = tint_glyph(&bitmap(1, 1, 255), RED);
    let block = stack_lines(&vec![dot, Canvas::blank(2, 1)], 4);
    assert_eq!((block.width(), block.height()), (2, 8));
    assert_eq!(block.pixel(0, 3), (255, 0, 0, 255));
    assert_eq!(block.pixel(0, 0), (0, 0, 0, 0));
}

#[test]
fn font_size_fits_the_window() {
    // Probe block 30x24 at size 10: 300 / 2.4 = 125, 250 / 3 = 83.
    assert_eq!(fit_font_size(250, 300, 30, 24), 83);
    assert_eq!(fit_font_size(250, 100, 30, 24), 41);
    assert_eq!(fit_font_size(0, 100, 30, 24), 0);
    assert_eq!(fit_font_size(u32::MAX, u32::MAX, 1, 1), u32::MAX);
    assert_eq!(line_height_for(10), 12);
    assert_eq!(line_height_for(83), 99);
    assert_eq!(line_height_for(0), 0);
}

#[test]
fn blocks_are_centred() {
    assert_eq!(center_offset(250, 100), 75);
    assert_eq!(center_offset(251, 101), 75);
    assert_eq!(center_offset(100, 250), -75);
}

#[test]
fn image_copies_pixels_at_native_size() {
    let pixels: Vec<u8> = (0..24u8).collect();
    let c = image_canvas(&ClipboardSnapshot::Image { width: 3, height: 2, pixels: pixels.clone() }).unwrap();
    assert_eq!((c.width(), c.height()), (3, 2));
    assert_eq!(c.bytes(), pixels.as_slice());
    assert_eq!(c.pixel(0, 0), (0, 1, 2, 3));
    assert!(image_canvas(&ClipboardSnapshot::Text("t".to_string())).is_none());
    assert!(image_canvas(&ClipboardSnapshot::Empty).is_none());
    assert!(image_canvas(&ClipboardSnapshot::Image { width: 0, height: 0, pixels: vec![] }).is_none());
}

#[test]
fn empty_note_frame_is_background_only() {
    let frame = compose_frame(250, 300, None).unwrap();
    assert_eq!((frame.width(), frame.height()), (250, 300));
    let bg = frame.pixel(0, 0);
    // The background, premultiplied.
    assert_eq!(bg, (245, 245, 118, 250));
    for y in 0..300 {
        for x in 0..250 {
            assert_eq!(frame.pixel(x, y), bg);
        }
    }
}

#[test]
fn frame_needs_an_area() {
    assert!(compose_frame(0, 300, None).is_none());
    assert!(compose_frame(250, 0, None).is_none());
    assert!(fits(250, 300));
    assert!(!fits(0, 1));
}

#[test]
fn text_block_is_centred_in_frame() {
    let block = tint_glyph(&bitmap(2, 2, 255), text_color());
    let frame = compose_frame(10, 6, Some(&block)).unwrap();
    assert_eq!(frame.pixel(4, 2), (255, 0, 0, 255));
    assert_eq!(frame.pixel(5, 3), (255, 0, 0, 255));
    assert_eq!(frame.pixel(3, 2), (245, 245, 118, 250));
    assert_eq!(frame.pixel(6, 3), (245, 245, 118, 250));
}

#[test]
fn drawing_changes_the_target() {
    let mut c = Canvas::blank(2, 2);
    c.draw(&tint_glyph(&bitmap(1, 1, 255), RED), 1, 1);
    assert_eq!(c.pixel(1, 1), (255, 0, 0, 255));
    assert_eq!(c.pixel(0, 0), (0, 0, 0, 0));
    // Clipped entirely.
    c.draw(&tint_glyph(&bitmap(1, 1, 255), RED), 5, 5);
    assert_eq!(c.pixel(0, 1), (0, 0, 0, 0));
}

#[test]
fn packed_pixels_drop_alpha() {
    let c = Canvas::from_parts(2, 1, vec![1, 2, 3, 4, 255, 128, 0, 9]).unwrap();
    assert_eq!(c.pack(), vec![0x0001_0203, 0x00ff_8000]);
    let f = Canvas::filled(1, 1, 250, 250, 120, 250);
    assert_eq!(f.pack(), vec![0x00f5_f576]);
    assert!(Canvas::from_parts(2, 1, vec![0; 7]).is_none());
    let (w, h, data) = c.into_parts();
    assert_eq!((w, h, data.len()), (2, 1, 8));
}

#[test]
fn glyph_far_off_the_line_is_skipped() {
    let glyphs = vec![
        PlacedGlyph { ch: 'a', x: i32::MAX - 1, y: 0, width: 2, height: 2, bitmap: bitmap(2, 2, 255) },
        PlacedGlyph { ch: 'b', x: 0, y: 0, width: 2, height: 2, bitmap: bitmap(2, 2, 255) },
    ];
    let line = render_line(&glyphs, 10, RED);
    assert_eq!((line.width(), line.height()), (2, 2));
    assert_eq!(line.pixel(1, 1), (255, 0, 0, 255));
}

#[test]
fn block_keeps_empty_and_trailing_lines() {
    // "a\n\nb\n" has four lines; each becomes one slot.
    let n = split_lines("a\n\nb\n").len();
    let lines: Vec<Canvas> = (0..n).map(|_| Canvas::placeholder()).collect();
    let block = stack_lines(&lines, 12);
    assert_eq!(block.height(), 48);
}
