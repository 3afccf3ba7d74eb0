use toimg::cmd::{run, Command, Verb};
use toimg::color::{parse_hex, tone, Rgba, Tone};
use toimg::parser::{control, num_from_value, parse, parse_num};
use toimg::pointer::Pointer;
use toimg::pyxel::{Pyxel, PyxelVec};

fn program(text: &str) -> (usize, usize, Vec<Command>) {
    parse(&text.to_string()).expect("script has a header")
}

fn render(text: &str, dark: bool) -> (Vec<Pyxel>, Vec<u8>) {
    let (w, h, cmds) = program(text);
    let mut pointer = Pointer::new();
    pointer.set_width(w);
    pointer.set_height(h);
    let pixels = run(&mut pointer, cmds);
    let raster = pixels.to_vec_u8(dark);
    (pixels.pyxels.clone(), raster)
}

fn cell(raster: &[u8], width: usize, x: usize, y: usize) -> [u8; 3] {
    let i = (y * width + x) * 3;
    [raster[i], raster[i + 1], raster[i + 2]]
}

#[test]
fn single_red_paint() {
    let (w, h, cmds) = program("4\n4\nr");
    assert_eq!((w, h), (4, 4));
    let paints: Vec<&Command> = cmds.iter().filter(|c| c.verb == Verb::Paint).collect();
    assert_eq!(paints.len(), 1);
    assert_eq!(paints[0].hex(), [255, 0, 0, 255]);
    assert_eq!(paints[0].rep(), 1);
    assert!(paints[0].unset());
    assert_eq!(cmds[0].verb, Verb::Paint);
    assert_eq!(cmds[1].verb, Verb::NextRow);

    let (pixels, raster) = render("4\n4\nr", false);
    assert_eq!(pixels.len(), 1);
    assert_eq!((pixels[0].x(), pixels[0].y()), (0, 0));
    assert_eq!(pixels[0].color_u8(), [255, 0, 0, 255]);
    assert_eq!(raster.len(), 4 * 4 * 3);
    assert_eq!(cell(&raster, 4, 0, 0), [255, 0, 0]);
    for y in 0..4 {
        for x in 0..4 {
            if (x, y) != (0, 0) {
                assert_eq!(cell(&raster, 4, x, y), [255, 255, 255]);
            }
        }
    }
    let (_, dark) = render("4\n4\nr", true);
    assert_eq!(cell(&dark, 4, 0, 0), [255, 0, 0]);
    assert_eq!(cell(&dark, 4, 1, 0), [0, 0, 0]);
}

#[test]
fn loop_repeats_paint() {
    let (_, _, cmds) = program("4\n4\n3[r]");
    let verbs: Vec<Verb> = cmds.iter().map(|c| c.verb).collect();
    assert_eq!(verbs, vec![Verb::LoopOpen, Verb::Paint, Verb::LoopClose, Verb::NextRow]);
    assert_eq!(cmds[0].rep(), 3);
    assert_eq!(cmds[1].hex(), [255, 0, 0, 255]);

    let (pixels, raster) = render("4\n4\n3[r]", false);
    let places: Vec<(usize, usize)> = pixels.iter().map(|p| (p.x, p.y)).collect();
    assert_eq!(places, vec![(0, 0), (1, 0), (2, 0)]);
    assert_eq!(cell(&raster, 4, 2, 0), [255, 0, 0]);
    assert_eq!(cell(&raster, 4, 3, 0), [255, 255, 255]);
}

#[test]
fn header_only_is_background() {
    let (w, h, cmds) = program("2\n2\n");
    assert_eq!((w, h), (2, 2));
    assert!(cmds.is_empty());
    let (pixels, raster) = render("2\n2\n", false);
    assert!(pixels.is_empty());
    assert_eq!(raster, vec![255u8; 12]);
    let (_, dark) = render("2\n2\n", true);
    assert_eq!(dark, vec![0u8; 12]);
}

#[test]
fn fewer_than_two_lines_is_no_program() {
    assert!(parse(&String::new()).is_none());
    assert!(parse(&"4".to_string()).is_none());
    assert!(parse(&"4\n".to_string()).is_none());
    assert!(parse(&"4\n4".to_string()).is_some());
}

#[test]
fn bad_dimension_defaults_to_32() {
    let (w, h, _) = program("abc\n5\nr");
    assert_eq!((w, h), (32, 5));
    let (w, h, _) = program("+7\r\n3\r\n");
    assert_eq!((w, h), (7, 3));
    let (w, h, _) = program("\n-3\n");
    assert_eq!((w, h), (32, 32));
    let (w, h, _) = program("99999999999999999999999\n0\n");
    assert_eq!((w, h), (32, 0));
}

#[test]
fn move_past_right_wraps_to_next_row() {
    let mut p = Pointer::new();
    p.set_width(4);
    p.set_height(4);
    p.set_pos(3, 0);
    p.move_pos(1, 0);
    assert_eq!((p.x(), p.y()), (0, 1));
    p.set_pos(2, 1);
    p.slide(3, 0);
    assert_eq!((p.x(), p.y()), (1, 2));
}

#[test]
fn reversed_move_past_left_wraps_to_right() {
    let mut p = Pointer::new();
    p.set_width(4);
    p.set_height(4);
    p.flip_reverse_move_x();
    assert!(p.reverse_move_x());
    p.set_pos(0, 1);
    p.move_pos(-1, 0);
    assert_eq!((p.x(), p.y()), (3, 2));
    p.flop_reverse_move_y();
    p.set_pos(0, 2);
    p.move_pos(-1, 0);
    assert_eq!((p.x(), p.y()), (3, 1));
    // a slide right, turned leftwards, wraps at once and goes on leftwards
    p.set_pos(0, 2);
    p.slide(3, 0);
    assert_eq!((p.x(), p.y()), (1, 1));
}

#[test]
fn normalize_twice_is_normalize_once() {
    let mut p = Pointer::new();
    p.set_width(5);
    p.set_height(3);
    p.set_pos(10, -3);
    p.check_pos();
    let first = (p.x(), p.y());
    p.check_pos();
    assert_eq!((p.x(), p.y()), first);
    assert_eq!(first, (0, 2));
    p.flip_reverse_move_x();
    p.set_pos(9, 7);
    p.check_pos();
    assert_eq!((p.x(), p.y()), (4, 0));
}

#[test]
fn vertical_moves_wrap() {
    let mut p = Pointer::new();
    p.set_width(3);
    p.set_height(3);
    p.move_pos(0, -1);
    assert_eq!(p.y(), 2);
    p.move_pos(0, 2);
    assert_eq!(p.y(), 1);
    p.flop_reverse_move_y();
    p.slide(0, 1);
    assert_eq!(p.y(), 0);
}

#[test]
fn margins_and_blank() {
    let mut p = Pointer::new();
    assert_eq!((p.width(), p.height(), p.right(), p.bottom()), (32, 32, 32, 32));
    p.set_virtual_left(2);
    assert_eq!((p.left(), p.x()), (2, 2));
    p.set_virtual_right(3);
    assert_eq!(p.right(), 29);
    p.set_virtual_top(1);
    assert_eq!((p.top(), p.y()), (1, 1));
    p.set_virtual_bottom(4);
    assert_eq!(p.bottom(), 28);
    p.set_width(0);
    assert_eq!((p.width(), p.right()), (1, 1));
    p.blank(6, 7);
    assert_eq!((p.x(), p.y(), p.left(), p.top(), p.right(), p.bottom()), (0, 0, 0, 0, 6, 7));
    assert!(!p.reverse_move_x() && !p.reverse_move_y());
    p.blank(0, 0);
    assert_eq!((p.width(), p.height(), p.right(), p.bottom()), (1, 1, 1, 1));
}

#[test]
fn margin_verbs_in_scripts() {
    let (pixels, _) = render("6\n2\n2s r\n", false);
    assert_eq!((pixels[0].x, pixels[0].y), (2, 0));
    // a right margin of 2 wraps a run of five cells onto the next row
    let (pixels, _) = render("6\n3\n2e 5r", false);
    let places: Vec<(usize, usize)> = pixels.iter().map(|p| (p.x, p.y)).collect();
    assert_eq!(places, vec![(0, 0), (1, 0), (2, 0), (3, 0), (0, 1)]);
    // an unset right margin restores the full width
    let (pixels, _) = render("6\n3\n2e e 5r", false);
    assert_eq!(pixels[4].x, 4);
}

#[test]
fn hex_lengths() {
    let h = |s: &str| parse_hex(&s.chars().collect());
    assert_eq!(h("f00"), Rgba { r: 255, g: 0, b: 0, a: 255 });
    assert_eq!(h("f008"), Rgba { r: 255, g: 0, b: 0, a: 0x88 });
    assert_eq!(h("12ab3c"), Rgba { r: 0x12, g: 0xab, b: 0x3c, a: 255 });
    assert_eq!(h("12ab3c40"), Rgba { r: 0x12, g: 0xab, b: 0x3c, a: 0x40 });
    let white = Rgba { r: 255, g: 255, b: 255, a: 255 };
    for bad in ["", "0", "00", "00000", "0000000", "000000000"] {
        assert_eq!(h(bad), white);
    }
    // a pending `#` color is carried by the instruction that flushes it
    let (_, _, cmds) = program("1\n1\n#0f0>");
    assert_eq!(cmds[0].verb, Verb::Right);
    assert_eq!(cmds[0].hex(), [0, 255, 0, 255]);
}

#[test]
fn named_colors_and_tones() {
    assert_eq!(tone(Some('r'), Tone::Normal), Rgba { r: 255, g: 0, b: 0, a: 255 });
    assert_eq!(tone(Some('r'), Tone::Light), Rgba { r: 255, g: 192, b: 192, a: 255 });
    assert_eq!(tone(Some('c'), Tone::Dark), Rgba { r: 0, g: 192, b: 192, a: 255 });
    assert_eq!(tone(Some('.'), Tone::Light), Rgba { r: 192, g: 192, b: 192, a: 255 });
    assert_eq!(tone(Some('w'), Tone::Dark), tone(Some('w'), Tone::Dark));
    let (_, _, cmds) = program("1\n1\nlr dm y");
    assert_eq!(cmds[0].hex(), [255, 192, 192, 255]);
    assert_eq!(cmds[1].hex(), [192, 0, 192, 255]);
    assert_eq!(cmds[2].hex(), [255, 255, 0, 255]);
}

#[test]
fn arguments_are_evaluated() {
    assert_eq!(parse_num(&"2+3".chars().collect()), (5, 5));
    assert_eq!(parse_num(&"-2*4".chars().collect()), (-8, 8));
    assert_eq!(parse_num(&"7/2".chars().collect()), (3, 3));
    assert_eq!(parse_num(&"*".chars().collect()), (0, 1));
    assert_eq!(num_from_value(None), (0, 1));
    assert_eq!(num_from_value(Some(-4)), (-4, 4));
    let (_, _, cmds) = program("9\n9\n2*3r 1 2b");
    assert_eq!((cmds[0].rep(), cmds[0].unset()), (6, false));
    assert_eq!(cmds[1].rep(), 12);
}

#[test]
fn comments_are_skipped() {
    let (_, _, cmds) = program("2\n2\n|r\ng");
    let verbs: Vec<Verb> = cmds.iter().map(|c| c.verb).collect();
    assert_eq!(verbs, vec![Verb::Paint, Verb::NextRow]);
    assert_eq!(cmds[0].hex(), [0, 255, 0, 255]);
    let (_, _, cmds) = program("2\n2\n{r\nr}b");
    let verbs: Vec<Verb> = cmds.iter().map(|c| c.verb).collect();
    assert_eq!(verbs, vec![Verb::Paint, Verb::NextRow]);
    assert_eq!(cmds[0].hex(), [0, 0, 255, 255]);
}

#[test]
fn control_characters() {
    assert_eq!(control('^'), Some(Verb::Up));
    assert_eq!(control('S'), Some(Verb::SetTop));
    assert_eq!(control('E'), Some(Verb::SetBottom));
    assert_eq!(control('q'), None);
}

#[test]
fn nested_and_zero_loops() {
    let (pixels, _) = render("8\n8\n2[2[r]]", false);
    assert_eq!(pixels.len(), 4);
    let (pixels, _) = render("8\n8\n0[r]", false);
    assert_eq!(pixels.len(), 1);
    let (pixels, _) = render("8\n8\n]r", false);
    assert_eq!(pixels.len(), 1);
    let (pixels, _) = render("8\n8\n0r", false);
    assert_eq!(pixels.len(), 0);
}

#[test]
fn rows_and_moves_in_scripts() {
    let (pixels, _) = render("4\n4\nr\nr\n", false);
    let places: Vec<(usize, usize)> = pixels.iter().map(|p| (p.x, p.y)).collect();
    assert_eq!(places, vec![(0, 0), (0, 1)]);
    let (pixels, _) = render("4\n4\n2>1v r 1^1<r", false);
    let places: Vec<(usize, usize)> = pixels.iter().map(|p| (p.x, p.y)).collect();
    assert_eq!(places, vec![(2, 1), (2, 0)]);
    let (pixels, _) = render("4\n4\nX 2r", false);
    let places: Vec<(usize, usize)> = pixels.iter().map(|p| (p.x, p.y)).collect();
    assert_eq!(places, vec![(0, 0), (3, 1)]);
}

#[test]
fn alpha_blends_over_background() {
    let mut v = PyxelVec::new(2, 1);
    v.push(Pyxel::new([255, 0, 0, 128], 1, 0));
    v.push(Pyxel::new([0, 0, 255, 255], 5, 5));
    let raster = v.to_vec_u8(false);
    assert_eq!(raster, vec![255, 255, 255, 255, 127, 127]);
    let raster = v.to_vec_u8(true);
    assert_eq!(raster, vec![0, 0, 0, 128, 0, 0]);
    let p = Pyxel::new([1, 2, 3, 4], 5, 6);
    assert_eq!((p.r(), p.g(), p.b(), p.a(), p.x(), p.y()), (1, 2, 3, 4, 5, 6));
}

#[test]
fn command_accessors() {
    let c = Command::new(Verb::Right, [1, 2, 3, 4], -3, 3, false);
    assert_eq!(*c.verb(), Verb::Right);
    assert_eq!(c.hex(), [1, 2, 3, 4]);
    assert_eq!(c.arg(), -3);
    assert_eq!(c.rep(), 3);
    assert!(!c.unset());
}
