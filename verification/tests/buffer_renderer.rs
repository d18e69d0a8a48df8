use ratatui::buffer::Buffer;
use ratatui::layout::{Offset, Position, Rect};
use ratatui::style::{Color, Modifier, Style};
use tachyonfx::{
    blit_buffer, blit_buffer_region, ref_count, render_as_ansi_string, BufferRenderer,
};

fn assert_buffer_to_buffer_copy(offset: Offset, expected: Buffer) {
    let aux_buffer = ref_count(Buffer::with_lines(["abcd", "efgh", "ijkl", "mnop"]));

    let mut buf = Buffer::with_lines([
        ". . . . ",
        ". . . . ",
        ". . . . ",
        ". . . . ",
        ". . . . ",
        ". . . . ",
        ". . . . ",
        ". . . . ",
    ]);

    aux_buffer.render_buffer(offset, &mut buf);

    assert_eq!(buf, expected)
}

#[test]
fn test_render_offsets_in_bounds() {
    assert_buffer_to_buffer_copy(
        Offset { x: 0, y: 0 },
        Buffer::with_lines([
            "abcd. . ",
            "efgh. . ",
            "ijkl. . ",
            "mnop. . ",
            ". . . . ",
            ". . . . ",
            ". . . . ",
            ". . . . ",
        ]),
    );

    assert_buffer_to_buffer_copy(
        Offset { x: 4, y: 3 },
        Buffer::with_lines([
            ". . . . ",
            ". . . . ",
            ". . . . ",
            ". . abcd",
            ". . efgh",
            ". . ijkl",
            ". . mnop",
            ". . . . ",
        ]),
    );
}

#[test]
fn test_render_offsets_out_of_bounds() {
    assert_buffer_to_buffer_copy(
        Offset { x: -1, y: -2 },
        Buffer::with_lines([
            "jkl . . ",
            "nop . . ",
            ". . . . ",
            ". . . . ",
            ". . . . ",
            ". . . . ",
            ". . . . ",
            ". . . . ",
        ]),
    );
    assert_buffer_to_buffer_copy(
        Offset { x: 6, y: 6 },
        Buffer::with_lines([
            ". . . . ",
            ". . . . ",
            ". . . . ",
            ". . . . ",
            ". . . . ",
            ". . . . ",
            ". . . ab",
            ". . . ef",
        ]),
    );
}

fn small_buffer() -> Buffer {
    Buffer::with_lines([". . . . ", ". . . . ", ". . . . "])
}

#[test]
fn test_render_from_larger_aux_buffer() {
    let aux_buffer = ref_count(Buffer::with_lines([
        "AAAAAAAAAA",
        "BBBBBBBBBB",
        "CCCCCCCCCC",
        "DDDDDDDDDD",
        "EEEEEEEEEE",
        "FFFFFFFFFF",
    ]));

    // Test with no vertical offset
    let mut buf = small_buffer();
    aux_buffer.render_buffer(Offset::default(), &mut buf);
    assert_eq!(buf, Buffer::with_lines(["AAAAAAAA", "BBBBBBBB", "CCCCCCCC"]));

    // Test with positive vertical offset
    let mut buf = small_buffer();
    aux_buffer.render_buffer(Offset { x: 0, y: 2 }, &mut buf);
    assert_eq!(buf, Buffer::with_lines([". . . . ", ". . . . ", "AAAAAAAA"]));

    // Test with negative vertical offset
    let mut buf = small_buffer();
    aux_buffer.render_buffer(Offset { x: 0, y: -2 }, &mut buf);
    assert_eq!(buf, Buffer::with_lines(["CCCCCCCC", "DDDDDDDD", "EEEEEEEE"]));

    // Test with both horizontal and vertical offset
    let mut buf = small_buffer();
    aux_buffer.render_buffer(Offset { x: 2, y: 1 }, &mut buf);
    assert_eq!(buf, Buffer::with_lines([". . . . ", ". AAAAAA", ". BBBBBB"]));

    // Test with out-of-bounds vertical offset
    let mut buf = small_buffer();
    aux_buffer.render_buffer(Offset { x: 0, y: 6 }, &mut buf);
    assert_eq!(buf, Buffer::with_lines([". . . . ", ". . . . ", ". . . . "]));

    // Test with large negative vertical and horizontal offset
    let mut buf = small_buffer();
    aux_buffer.render_buffer(Offset { x: -5, y: -5 }, &mut buf);
    assert_eq!(buf, Buffer::with_lines(["FFFFF . ", ". . . . ", ". . . . "]));
}

fn wide_buffer() -> Buffer {
    Buffer::with_lines([". . . . ", ". . . . ", ". . . . ", ". . . . ", ". . . . "])
}

#[test]
fn test_blit_buffer_region() {
    let aux_buffer = Buffer::with_lines(["abcd", "efgh", "ijkl", "mnop"]);

    let mut buf = wide_buffer();
    blit_buffer_region(&aux_buffer, Rect::new(1, 1, 2, 2), &mut buf, Offset::default());
    assert_eq!(
        buf,
        Buffer::with_lines(["fg. . . ", "jk. . . ", ". . . . ", ". . . . ", ". . . . "])
    );

    let mut buf = wide_buffer();
    blit_buffer_region(&aux_buffer, Rect::new(1, 1, 2, 2), &mut buf, Offset { x: 4, y: 2 });
    assert_eq!(
        buf,
        Buffer::with_lines([". . . . ", ". . . . ", ". . fg. ", ". . jk. ", ". . . . "])
    );

    let mut buf = wide_buffer();
    blit_buffer_region(&aux_buffer, Rect::new(1, 1, 3, 3), &mut buf, Offset { x: -1, y: -1 });
    assert_eq!(
        buf,
        Buffer::with_lines(["kl. . . ", "op. . . ", ". . . . ", ". . . . ", ". . . . "])
    );

    let mut buf = wide_buffer();
    blit_buffer_region(&aux_buffer, Rect::new(2, 2, 3, 3), &mut buf, Offset::default());
    assert_eq!(
        buf,
        Buffer::with_lines(["kl. . . ", "op. . . ", ". . . . ", ". . . . ", ". . . . "])
    );

    let mut buf = wide_buffer();
    blit_buffer_region(&aux_buffer, Rect::new(0, 0, 2, 2), &mut buf, Offset { x: 6, y: 3 });
    assert_eq!(
        buf,
        Buffer::with_lines([". . . . ", ". . . . ", ". . . . ", ". . . ab", ". . . ef"])
    );

    let mut buf = wide_buffer();
    blit_buffer_region(&aux_buffer, Rect::new(0, 0, 2, 2), &mut buf, Offset { x: 8, y: 8 });
    assert_eq!(
        buf,
        Buffer::with_lines([". . . . ", ". . . . ", ". . . . ", ". . . . ", ". . . . "])
    );

    let mut buf = wide_buffer();
    blit_buffer_region(&aux_buffer, Rect::new(1, 1, 0, 0), &mut buf, Offset::default());
    assert_eq!(
        buf,
        Buffer::with_lines([". . . . ", ". . . . ", ". . . . ", ". . . . ", ". . . . "])
    );

    let mut buf = wide_buffer();
    blit_buffer_region(&aux_buffer, Rect::new(0, 0, 4, 4), &mut buf, Offset::default());
    assert_eq!(
        buf,
        Buffer::with_lines(["abcd. . ", "efgh. . ", "ijkl. . ", "mnop. . ", ". . . . "])
    );
}

#[test]
fn blit_entirely_outside_leaves_destination_unchanged() {
    let src = Buffer::with_lines(["ab", "cd"]);
    for offset in [
        Offset { x: 8, y: 0 },
        Offset { x: 0, y: 3 },
        Offset { x: -2, y: 0 },
        Offset { x: 0, y: -2 },
        Offset { x: 100_000, y: 100_000 },
        Offset { x: -100_000, y: -100_000 },
        Offset { x: i32::MAX, y: i32::MIN },
    ] {
        let mut dst = small_buffer();
        blit_buffer(&src, &mut dst, offset);
        assert_eq!(dst, small_buffer());
    }
}

#[test]
fn blit_whole_buffer_keeps_destination_under_skipped_cells() {
    let mut src = Buffer::with_lines(["abc", "def"]);
    src[(1, 0)].set_skip(true);
    src[(2, 1)].set_skip(true);
    src[(0, 0)].set_style(Style::default().fg(Color::Red).add_modifier(Modifier::BOLD));
    let mut dst = Buffer::with_lines(["123", "456"]);
    blit_buffer(&src, &mut dst, Offset { x: 0, y: 0 });

    let mut expected = Buffer::with_lines(["a2c", "de6"]);
    expected[(0, 0)].set_style(Style::default().fg(Color::Red).add_modifier(Modifier::BOLD));
    assert_eq!(dst, expected);
}

#[test]
fn blit_places_region_relative_to_destination_corner() {
    let src = Buffer::with_lines(["ab", "cd"]);
    let mut dst = Buffer::empty(Rect::new(10, 20, 4, 3));
    blit_buffer(&src, &mut dst, Offset { x: 1, y: 1 });
    assert_eq!(dst[(11, 21)].symbol(), "a");
    assert_eq!(dst[(12, 21)].symbol(), "b");
    assert_eq!(dst[(11, 22)].symbol(), "c");
    assert_eq!(dst[(12, 22)].symbol(), "d");
    assert_eq!(dst[(10, 20)].symbol(), " ");
    assert_eq!(dst.cell(Position::new(13, 22)).map(|c| c.symbol()), Some(" "));
}

#[test]
fn ansi_string_of_plain_buffer() {
    let buf = Buffer::with_lines(["ab", "cd"]);
    assert_eq!(render_as_ansi_string(&buf), "\x1b[0mab\x1b[0m\n\x1b[0mcd\x1b[0m\n");
}

#[test]
fn ansi_string_with_colors_and_modifiers() {
    let mut buf = Buffer::with_lines(["abc"]);
    buf[(0, 0)].set_style(Style::default().fg(Color::Red));
    buf[(1, 0)].set_style(
        Style::default()
            .fg(Color::Rgb(1, 20, 255))
            .bg(Color::Indexed(200))
            .add_modifier(Modifier::BOLD | Modifier::CROSSED_OUT),
    );
    buf[(2, 0)].set_style(
        Style::default()
            .fg(Color::Rgb(1, 20, 255))
            .bg(Color::Indexed(200))
            .add_modifier(Modifier::BOLD | Modifier::CROSSED_OUT),
    );
    assert_eq!(
        render_as_ansi_string(&buf),
        "\x1b[0m\x1b[38;5;1ma\x1b[0m\x1b[38;2;1;20;255m\x1b[48;5;200m\x1b[1m\x1b[9mbc\x1b[0m\n"
    );
}

#[test]
fn ansi_string_names_every_modifier_in_order() {
    let mut buf = Buffer::with_lines(["x"]);
    buf[(0, 0)].set_style(Style::default().bg(Color::White).add_modifier(Modifier::all()));
    assert_eq!(
        render_as_ansi_string(&buf),
        "\x1b[0m\x1b[48;5;15m\x1b[1m\x1b[2m\x1b[3m\x1b[4m\x1b[5m\x1b[6m\x1b[7m\x1b[8m\x1b[9mx\x1b[0m\n"
    );
}

#[test]
fn ansi_string_of_empty_buffer_is_empty() {
    let buf = Buffer::empty(Rect::new(0, 0, 0, 0));
    assert_eq!(render_as_ansi_string(&buf), "");
}

#[test]
fn buffers_render_themselves_and_their_regions() {
    let src = Buffer::with_lines(["abc", "def"]);
    let mut dst = small_buffer();
    src.render_buffer(Offset { x: 1, y: 1 }, &mut dst);
    assert_eq!(dst, Buffer::with_lines([". . . . ", ".abc. . ", ".def. . "]));
    let mut dst = small_buffer();
    src.render_buffer_region(Rect::new(1, 0, 2, 1), Offset { x: 0, y: 2 }, &mut dst);
    assert_eq!(dst, Buffer::with_lines([". . . . ", ". . . . ", "bc. . . "]));
    let shared = ref_count(src);
    let mut dst = small_buffer();
    shared.clone().render_buffer_region(Rect::new(0, 1, 9, 9), Offset { x: 6, y: 0 }, &mut dst);
    assert_eq!(dst, Buffer::with_lines([". . . de", ". . . . ", ". . . . "]));
}

#[test]
fn shared_buffer_is_read_and_replaced() {
    let shared = ref_count(Buffer::with_lines(["ab"]));
    let other = shared.share();
    assert_eq!(other.snapshot(), Buffer::with_lines(["ab"]));
    shared.store(Buffer::with_lines(["cd", "ef"]));
    assert_eq!(other.snapshot(), Buffer::with_lines(["cd", "ef"]));
}
