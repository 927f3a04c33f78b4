use component_bus::buffer::Buffer;

const WHITE: u8 = 15;
const BLACK: u8 = 0;
const RED: u8 = 4;
const BLUE: u8 = 1;

fn text_of(buffer: &Buffer<u8>) -> Vec<String> {
    buffer
        .chars
        .chunks(buffer.width as usize)
        .map(|row| row.iter().map(|c| if *c == '\0' { '.' } else { *c }).collect())
        .collect()
}

#[test]
fn new_buffer_is_blank() {
    let buffer: Buffer<u8> = Buffer::new(4, 3, WHITE, BLACK);
    assert_eq!(buffer.width, 4);
    assert_eq!(buffer.height, 3);
    assert_eq!(buffer.chars, vec!['\0'; 12]);
    assert_eq!(buffer.foreground, vec![WHITE; 12]);
    assert_eq!(buffer.background, vec![BLACK; 12]);
}

#[test]
fn write_sets_one_cell_and_ignores_outside() {
    let mut buffer: Buffer<u8> = Buffer::new(4, 3, WHITE, BLACK);
    buffer.write(1, 2, 'x', RED, BLUE);
    assert_eq!(buffer.chars[9], 'x');
    assert_eq!(buffer.foreground[9], RED);
    assert_eq!(buffer.background[9], BLUE);
    let before = buffer.clone();
    for (x, y) in [(-1, 0), (0, -1), (4, 0), (0, 3), (i32::MAX, i32::MAX), (i32::MIN, 0)] {
        buffer.write(x, y, 'y', RED, RED);
    }
    assert_eq!(buffer.chars, before.chars);
    assert_eq!(buffer.foreground, before.foreground);
    assert_eq!(buffer.background, before.background);
}

#[test]
fn fill_is_clipped_to_the_grid() {
    let mut buffer: Buffer<u8> = Buffer::new(4, 3, WHITE, BLACK);
    buffer.fill(-1, 1, 3, 5, '#', RED, BLUE);
    assert_eq!(text_of(&buffer), vec!["....", "##..", "##.."]);
    assert_eq!(buffer.foreground[4], RED);
    assert_eq!(buffer.background[5], BLUE);
    assert_eq!(buffer.foreground[6], WHITE);
    buffer.fill(3, 0, i32::MAX, 1, '*', RED, BLUE);
    assert_eq!(text_of(&buffer), vec!["...*", "##..", "##.."]);
    buffer.fill(0, 0, 0, 3, '!', RED, BLUE);
    buffer.fill(0, 0, -2, -2, '!', RED, BLUE);
    assert_eq!(text_of(&buffer), vec!["...*", "##..", "##.."]);
}

#[test]
fn write_text_runs_along_a_row() {
    let mut buffer: Buffer<u8> = Buffer::new(5, 2, WHITE, BLACK);
    buffer.writeText(1, 0, "ab", RED, BLUE);
    assert_eq!(text_of(&buffer), vec![".ab..", "....."]);
    buffer.writeText(3, 1, "wxyz", RED, BLUE);
    assert_eq!(text_of(&buffer), vec![".ab..", "...wx"]);
    buffer.writeText(-2, 1, "äöü", RED, BLUE);
    assert_eq!(text_of(&buffer), vec![".ab..", "ü..wx"]);
    buffer.writeText(0, 2, "below", RED, BLUE);
    buffer.writeText(0, -1, "above", RED, BLUE);
    assert_eq!(text_of(&buffer), vec![".ab..", "ü..wx"]);
    assert_eq!(buffer.foreground[1], RED);
    assert_eq!(buffer.foreground[0], WHITE);
}

#[test]
fn resize_keeps_the_first_cells() {
    let mut buffer: Buffer<u8> = Buffer::new(2, 2, WHITE, BLACK);
    buffer.fill(0, 0, 2, 2, 'a', RED, BLUE);
    buffer.resize(3, 2);
    assert_eq!(buffer.chars, vec!['a', 'a', 'a', 'a', '\0', '\0']);
    assert_eq!(buffer.foreground, vec![RED, RED, RED, RED, WHITE, WHITE]);
    assert_eq!(buffer.background, vec![BLUE, BLUE, BLUE, BLUE, BLACK, BLACK]);
    buffer.resize(1, 2);
    assert_eq!(buffer.chars, vec!['a', 'a']);
    assert_eq!((buffer.width, buffer.height), (1, 2));
}

#[test]
fn replace_copies_everything() {
    let mut a: Buffer<u8> = Buffer::new(1, 1, WHITE, BLACK);
    let mut b: Buffer<u8> = Buffer::new(3, 2, WHITE, BLACK);
    b.writeText(0, 1, "hey", RED, BLUE);
    a.replace(&b);
    assert_eq!((a.width, a.height), (3, 2));
    assert_eq!(a.chars, b.chars);
    assert_eq!(a.foreground, b.foreground);
    assert_eq!(a.background, b.background);
}

#[test]
fn copy_places_and_clips() {
    let mut dst: Buffer<u8> = Buffer::new(4, 3, WHITE, BLACK);
    let mut src: Buffer<u8> = Buffer::new(3, 2, WHITE, BLACK);
    src.writeText(0, 0, "abc", RED, BLUE);
    src.writeText(0, 1, "def", RED, BLUE);
    dst.copy(2, 2, &src, 0, 0, 0);
    assert_eq!(text_of(&dst), vec!["....", "....", "..ab"]);
    assert_eq!(dst.foreground[10], RED);
    assert_eq!(dst.background[11], BLUE);
    let mut dst: Buffer<u8> = Buffer::new(4, 3, WHITE, BLACK);
    dst.copy(-1, -1, &src, 0, 0, 0);
    assert_eq!(text_of(&dst), vec!["ef..", "....", "...."]);
    let mut dst: Buffer<u8> = Buffer::new(4, 3, WHITE, BLACK);
    dst.copy(9, 0, &src, 0, 0, 0);
    dst.copy(0, -9, &src, 0, 0, 0);
    assert_eq!(text_of(&dst), vec!["....", "....", "...."]);
}

#[test]
fn copy_blends_by_mode() {
    let mut src: Buffer<u8> = Buffer::new(3, 1, WHITE, BLACK);
    src.writeText(0, 0, "a c", RED, BLUE);
    let base = || {
        let mut dst: Buffer<u8> = Buffer::new(3, 1, WHITE, BLACK);
        dst.writeText(0, 0, "xyz", WHITE, BLACK);
        dst
    };
    let mut dst = base();
    dst.copy(0, 0, &src, 0, 9, 9);
    assert_eq!(text_of(&dst), vec!["a c"]);
    assert_eq!(dst.foreground, vec![WHITE; 3]);
    assert_eq!(dst.background, vec![BLACK; 3]);
    let mut dst = base();
    dst.copy(0, 0, &src, 1, 0, 9);
    assert_eq!(text_of(&dst), vec!["ayc"]);
    assert_eq!(dst.foreground, vec![RED; 3]);
    assert_eq!(dst.background, vec![BLACK; 3]);
    let mut dst = base();
    dst.copy(0, 0, &src, 2, 9, 8);
    assert_eq!(text_of(&dst), vec!["x z"]);
    assert_eq!(dst.background, vec![BLUE; 3]);
    let mut dst = base();
    dst.copy(0, 0, &src, 3, 9, 9);
    assert_eq!(text_of(&dst), vec!["xyz"]);
}
