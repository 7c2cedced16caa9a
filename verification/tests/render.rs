use ascii::render::{cursor_up, render_frame};
use ascii::sink::{glyph_cells, intermediate_path_for, merge_command_args};

#[test]
fn frame_for_one_red_pixel() {
    let pixels = vec![vec![(255u8, 0u8, 0u8)]];
    let out = render_frame(&pixels);
    // lightness of pure red is 50, whose glyph is '+', drawn doubled
    assert_eq!(
        out,
        "\x1b[?25l\x1b[40;2;0;0;0m\x1b[38;2;255;0;0m++\n\x1b[0m\x1b[?25h"
    );
}

#[test]
fn frame_rows_and_cells_in_order() {
    let pixels = vec![
        vec![(0u8, 0u8, 0u8), (255u8, 255u8, 255u8)],
        vec![(255u8, 0u8, 0u8), (1u8, 2u8, 3u8)],
    ];
    let out = render_frame(&pixels);
    let expected = String::from("\x1b[?25l\x1b[40;2;0;0;0m")
        + "\x1b[38;2;0;0;0m  "
        + "\x1b[38;2;255;255;255m@@\n"
        + "\x1b[38;2;255;0;0m++"
        + "\x1b[38;2;1;2;3m  \n"
        + "\x1b[0m\x1b[?25h";
    assert_eq!(out, expected);
}

#[test]
fn cursor_up_sequence() {
    assert_eq!(cursor_up(12), "\x1b[12A");
    assert_eq!(cursor_up(0), "\x1b[0A");
    assert_eq!(cursor_up(305), "\x1b[305A");
}

#[test]
fn intermediate_path_names_the_id() {
    assert_eq!(intermediate_path_for(42), "tmp/42.video.mp4");
    assert_eq!(intermediate_path_for(0), "tmp/0.video.mp4");
    assert_eq!(intermediate_path_for(4294967295), "tmp/4294967295.video.mp4");
}

#[test]
fn merge_args_take_audio_from_original_video_from_intermediate() {
    let args = merge_command_args("in.mp4", "tmp/7.video.mp4", "out.mp4");
    assert_eq!(
        args,
        vec![
            "-v",
            "error",
            "-stats",
            "-vn",
            "-i",
            "in.mp4",
            "-an",
            "-i",
            "tmp/7.video.mp4",
            "out.mp4",
        ]
    );
}

#[test]
fn glyph_cells_lay_out_the_raster() {
    let pixels = vec![
        vec![(255u8, 255u8, 255u8), (0u8, 0u8, 0u8)],
        vec![(255u8, 0u8, 0u8), (255u8, 255u8, 255u8)],
    ];
    let (cells, w, h) = glyph_cells(&pixels);
    assert_eq!((w, h), (16, 16));
    assert_eq!(cells.len(), 4);

    assert_eq!((cells[0].x, cells[0].y), (0, 0));
    assert_eq!(cells[0].glyph, '@');
    assert_eq!(cells[0].color, (255, 255, 255));

    assert_eq!((cells[1].x, cells[1].y), (8, 0));
    assert_eq!(cells[1].glyph, ' ');

    assert_eq!((cells[2].x, cells[2].y), (0, 8));
    assert_eq!(cells[2].glyph, '+');
    assert_eq!(cells[2].color, (255, 0, 0));

    assert_eq!((cells[3].x, cells[3].y), (8, 8));
    assert_eq!(cells[3].glyph, '@');
}
