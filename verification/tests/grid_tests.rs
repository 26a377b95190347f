use mm1_level_to_img::canvas::Canvas;
use mm1_level_to_img::color::{colorize_u16, Color};
use mm1_level_to_img::cells::{ObjectGrid, GRID_COLUMNS, GRID_ROWS, SCALE};
use mm1_level_to_img::grid::{
    can_decode_objects, can_encode_objects, decode_objects, encode_objects, shows_no_object,
    Layout,
};
use mm1_level_to_img::level::Object;

const BLACK: Color = Color { r: 0, g: 0, b: 0 };

fn object_at(x_position: u32, y_position: i16, z_position: i32, object_type: i8) -> Object {
    Object {
        x_position,
        y_position,
        z_position,
        object_type,
        transformation_id: 7,
        object_flags: 0x0601_0203,
        width: 2,
        height: -3,
        child_object_type: -1,
        child_object_transformation_id: 4,
        child_object_flags: 0xFFFE_0001,
        extended_object_data: 99,
        link_id: 12,
        effect_index: 34,
    }
}

fn as_decoded(obj: &Object, col: u32, row: i16) -> Object {
    Object {
        x_position: col * 160,
        y_position: row * 160,
        extended_object_data: 0,
        link_id: -1,
        effect_index: -1,
        ..*obj
    }
}

fn round_trip(objs: &Vec<Object>) -> Vec<Object> {
    let mut canvas = Canvas::new(256, 256);
    assert!(can_encode_objects(Layout::Full, objs, &canvas, 0));
    encode_objects(Layout::Full, objs, &mut canvas, 0);
    assert!(can_decode_objects(&canvas, 0));
    decode_objects(&canvas, 0)
}

#[test]
fn grid_constants() {
    assert_eq!(SCALE, 160);
    assert_eq!(GRID_COLUMNS, 240);
    assert_eq!(GRID_ROWS, 27);
}

#[test]
fn a_new_grid_is_empty() {
    let grid = ObjectGrid::new();
    for row in 0..=27 {
        for col in 0..=240 {
            assert_eq!(grid.get(col, row), None);
        }
    }
}

#[test]
fn place_puts_an_object_into_the_cell_of_its_position() {
    let mut grid = ObjectGrid::new();
    let obj = object_at(479, 319, 0, 1);
    grid.place(obj);
    assert_eq!(grid.get(2, 1), Some(obj));
    assert_eq!(grid.get(1, 2), None);
    assert_eq!(grid.get(3, 1), None);
    assert_eq!(grid.get(2, 2), None);
}

#[test]
fn place_keeps_the_object_with_the_greater_z() {
    let low = object_at(320, 160, 5, 1);
    let high = object_at(330, 170, 6, 2);
    let mut grid = ObjectGrid::new();
    grid.place(low);
    grid.place(high);
    assert_eq!(grid.get(2, 1), Some(high));
    let mut grid = ObjectGrid::new();
    grid.place(high);
    grid.place(low);
    assert_eq!(grid.get(2, 1), Some(high));
}

#[test]
fn place_keeps_the_first_of_two_objects_with_the_same_z() {
    let first = object_at(320, 160, 5, 1);
    let second = object_at(330, 170, 5, 2);
    let mut grid = ObjectGrid::new();
    grid.place(first);
    grid.place(second);
    assert_eq!(grid.get(2, 1), Some(first));
}

#[test]
fn place_compares_z_as_signed() {
    let behind = object_at(0, 0, -1, 1);
    let front = object_at(0, 0, 0, 2);
    let mut grid = ObjectGrid::new();
    grid.place(front);
    grid.place(behind);
    assert_eq!(grid.get(0, 0), Some(front));
}

#[test]
fn place_ignores_objects_outside_the_grid() {
    let mut grid = ObjectGrid::new();
    grid.place(object_at(241 * 160, 0, 0, 1));
    grid.place(object_at(0, 28 * 160, 0, 1));
    grid.place(object_at(0, -160, 0, 1));
    grid.place(object_at(u32::MAX, i16::MAX, 0, 1));
    grid.place(object_at(0, i16::MIN, 0, 1));
    for row in 0..=27 {
        for col in 0..=240 {
            assert_eq!(grid.get(col, row), None);
        }
    }
}

#[test]
fn place_takes_in_the_last_column_and_row() {
    let corner = object_at(240 * 160 + 159, 27 * 160 + 159, 0, 1);
    let mut grid = ObjectGrid::new();
    grid.place(corner);
    assert_eq!(grid.get(240, 27), Some(corner));
}

#[test]
fn place_rounds_a_small_negative_y_to_row_zero() {
    let above = object_at(0, -159, 0, 1);
    let mut grid = ObjectGrid::new();
    grid.place(above);
    assert_eq!(grid.get(0, 0), Some(above));
}

#[test]
fn from_objects_offers_the_objects_in_order() {
    let a = object_at(0, 0, 1, 1);
    let b = object_at(10, 10, 1, 2);
    let c = object_at(160, 0, -7, 3);
    let d = object_at(20, 20, 2, 4);
    let grid = ObjectGrid::from_objects(&vec![a, b, c, d]);
    assert_eq!(grid.get(0, 0), Some(d));
    assert_eq!(grid.get(1, 0), Some(c));
    let grid = ObjectGrid::from_objects(&vec![a, b]);
    assert_eq!(grid.get(0, 0), Some(a));
}

#[test]
fn encode_objects_writes_nine_words_27_rows_apart() {
    let obj = object_at(320, 160, 0x0005_0006, 3);
    let mut canvas = Canvas::new(256, 256);
    encode_objects(Layout::Full, &vec![obj], &mut canvas, 10);
    let top = 10 + 1 + 1;
    assert_eq!(canvas.get_pixel(2, top), colorize_u16(0x0307));
    assert_eq!(canvas.get_pixel(2, top + 27), colorize_u16(0x0005));
    assert_eq!(canvas.get_pixel(2, top + 54), colorize_u16(0x0006));
    assert_eq!(canvas.get_pixel(2, top + 81), colorize_u16(0x0601));
    assert_eq!(canvas.get_pixel(2, top + 108), colorize_u16(0x0203));
    assert_eq!(canvas.get_pixel(2, top + 135), colorize_u16(0x02FD));
    assert_eq!(canvas.get_pixel(2, top + 162), colorize_u16(0xFF04));
    assert_eq!(canvas.get_pixel(2, top + 189), colorize_u16(0xFFFE));
    assert_eq!(canvas.get_pixel(2, top + 216), colorize_u16(0x0001));
}

#[test]
fn encode_objects_touches_nothing_else() {
    let obj = object_at(320, 160, 0x0005_0006, 3);
    let mut canvas = Canvas::new(256, 256);
    encode_objects(Layout::Full, &vec![obj], &mut canvas, 10);
    for y in 0..256u32 {
        for x in 0..256u32 {
            let written = x == 2 && y >= 12 && (y - 12) % 27 == 0 && (y - 12) / 27 < 9;
            if !written {
                assert_eq!(canvas.get_pixel(x, y), BLACK);
            }
        }
    }
    assert_eq!(canvas.width(), 256);
    assert_eq!(canvas.height(), 256);
}

#[test]
fn encode_objects_splits_a_negative_z_into_its_two_halves() {
    let obj = object_at(0, 0, -2, 1);
    let mut canvas = Canvas::new(256, 256);
    encode_objects(Layout::Full, &vec![obj], &mut canvas, 0);
    assert_eq!(canvas.get_pixel(0, 1 + 27), colorize_u16(0xFFFF));
    assert_eq!(canvas.get_pixel(0, 1 + 54), colorize_u16(0xFFFE));
    assert_eq!(decode_objects(&canvas, 0), vec![as_decoded(&obj, 0, 0)]);
}

#[test]
fn one_object_round_trips_to_the_corner_of_its_cell() {
    let obj = object_at(479, 319, 5, 3);
    assert_eq!(round_trip(&vec![obj]), vec![as_decoded(&obj, 2, 1)]);
}

#[test]
fn the_unstored_fields_come_back_as_their_defaults() {
    let back = round_trip(&vec![object_at(0, 0, 0, 1)]);
    assert_eq!(back.len(), 1);
    assert_eq!(back[0].extended_object_data, 0);
    assert_eq!(back[0].link_id, -1);
    assert_eq!(back[0].effect_index, -1);
}

#[test]
fn every_stored_field_round_trips_at_its_extremes() {
    for (small, flags, z) in [
        (i8::MIN, 0u32, i32::MIN),
        (-1, 0xFFFF_FFFF, -1),
        (1, 0x8000_0000, 0),
        (i8::MAX, 0x0000_FFFF, i32::MAX),
    ] {
        let obj = Object {
            x_position: 0,
            y_position: 0,
            z_position: z,
            object_type: small,
            transformation_id: small,
            object_flags: flags,
            width: small,
            height: small,
            child_object_type: small,
            child_object_transformation_id: small,
            child_object_flags: flags,
            extended_object_data: 0,
            link_id: -1,
            effect_index: -1,
        };
        assert_eq!(round_trip(&vec![obj]), vec![obj]);
    }
}

#[test]
fn of_two_objects_in_one_cell_the_one_with_greater_z_comes_back() {
    let low = object_at(320, 160, 5, 1);
    let high = object_at(321, 161, 6, 2);
    assert_eq!(round_trip(&vec![low, high]), vec![as_decoded(&high, 2, 1)]);
    assert_eq!(round_trip(&vec![high, low]), vec![as_decoded(&high, 2, 1)]);
}

#[test]
fn of_two_objects_in_one_cell_with_equal_z_the_first_comes_back() {
    let first = object_at(320, 160, 5, 1);
    let second = object_at(321, 161, 5, 2);
    assert_eq!(round_trip(&vec![first, second]), vec![as_decoded(&first, 2, 1)]);
}

#[test]
fn an_object_in_column_241_is_dropped() {
    let kept = object_at(0, 0, 0, 1);
    let dropped = object_at(241 * 160, 0, 0, 2);
    assert_eq!(round_trip(&vec![dropped]), vec![]);
    assert_eq!(round_trip(&vec![kept, dropped]), vec![as_decoded(&kept, 0, 0)]);
}

#[test]
fn an_object_in_row_28_is_dropped() {
    let kept = object_at(0, 0, 0, 1);
    let dropped = object_at(0, 28 * 160, 0, 2);
    assert_eq!(round_trip(&vec![dropped]), vec![]);
    assert_eq!(round_trip(&vec![kept, dropped]), vec![as_decoded(&kept, 0, 0)]);
}

#[test]
fn an_object_outside_the_grid_leaves_the_canvas_black() {
    let mut canvas = Canvas::new(256, 256);
    let objs = vec![
        object_at(241 * 160, 0, 0, 2),
        object_at(0, 28 * 160, 0, 2),
        object_at(0, -160, 0, 2),
    ];
    encode_objects(Layout::Full, &objs, &mut canvas, 0);
    for y in 0..256 {
        for x in 0..256 {
            assert_eq!(canvas.get_pixel(x, y), BLACK);
        }
    }
}

#[test]
fn an_object_in_column_240_is_written_but_not_read() {
    let obj = object_at(240 * 160, 160, 0x0001_0002, 2);
    let mut canvas = Canvas::new(256, 256);
    encode_objects(Layout::Full, &vec![obj], &mut canvas, 0);
    assert_eq!(canvas.get_pixel(240, 2), colorize_u16(0x0207));
    assert_eq!(canvas.get_pixel(240, 2 + 216), colorize_u16(0x0001));
    assert_eq!(decode_objects(&canvas, 0), vec![]);
}

#[test]
fn an_object_in_row_27_is_written_but_not_read() {
    let obj = object_at(160, 27 * 160, 0x0001_0002, 2);
    let mut canvas = Canvas::new(256, 256);
    encode_objects(Layout::Full, &vec![obj], &mut canvas, 0);
    assert_eq!(canvas.get_pixel(1, 1 + 27), colorize_u16(0x0207));
    assert_eq!(canvas.get_pixel(1, 1 + 27 + 216), colorize_u16(0x0001));
    assert_eq!(decode_objects(&canvas, 0), vec![]);
}

#[test]
fn an_object_in_row_27_gives_way_to_the_object_in_row_0_of_its_column() {
    let top = object_at(160, 0, 0x0003_0004, 1);
    let bottom = object_at(160, 27 * 160, 0x0001_0002, 2);
    for objs in [vec![top, bottom], vec![bottom, top]] {
        let mut canvas = Canvas::new(256, 256);
        encode_objects(Layout::Full, &objs, &mut canvas, 0);
        assert_eq!(canvas.get_pixel(1, 1 + 27), colorize_u16(0x0003));
        assert_eq!(canvas.get_pixel(1, 1 + 27 + 216), colorize_u16(0x0001));
        assert_eq!(decode_objects(&canvas, 0), vec![as_decoded(&top, 1, 0)]);
    }
}

#[test]
fn an_object_of_type_zero_is_lost() {
    let obj = object_at(320, 160, 5, 0);
    let mut canvas = Canvas::new(256, 256);
    encode_objects(Layout::Full, &vec![obj], &mut canvas, 0);
    assert_eq!(canvas.get_pixel(2, 2), colorize_u16(0x0007));
    assert_eq!(decode_objects(&canvas, 0), vec![]);
}

#[test]
fn an_object_of_type_zero_in_front_hides_the_one_behind() {
    let behind = object_at(320, 160, 5, 3);
    let front = object_at(320, 160, 6, 0);
    assert_eq!(round_trip(&vec![behind, front]), vec![]);
}

#[test]
fn a_negative_type_is_not_zero() {
    let obj = object_at(0, 0, 0, -128);
    assert_eq!(round_trip(&vec![obj]), vec![as_decoded(&obj, 0, 0)]);
}

#[test]
fn objects_come_back_row_by_row_and_left_to_right() {
    let a = object_at(3 * 160, 2 * 160, 0, 1);
    let b = object_at(160, 2 * 160, 0, 2);
    let c = object_at(239 * 160, 0, 0, 3);
    let d = object_at(0, 26 * 160, 0, 4);
    assert_eq!(
        round_trip(&vec![a, b, c, d]),
        vec![
            as_decoded(&c, 239, 0),
            as_decoded(&b, 1, 2),
            as_decoded(&a, 3, 2),
            as_decoded(&d, 0, 26),
        ]
    );
}

#[test]
fn no_objects_leave_the_canvas_black_and_give_no_objects() {
    let mut canvas = Canvas::new(256, 256);
    encode_objects(Layout::Full, &Vec::new(), &mut canvas, 0);
    for y in 0..256 {
        for x in 0..256 {
            assert_eq!(canvas.get_pixel(x, y), BLACK);
        }
    }
    assert_eq!(decode_objects(&canvas, 0), vec![]);
}

#[test]
fn decode_objects_reads_what_the_pixels_say() {
    let mut canvas = Canvas::new(240, 28);
    canvas.put_pixel(239, 27, colorize_u16(0x0100));
    assert!(!can_decode_objects(&canvas, 0));
    let mut canvas = Canvas::new(240, 244);
    canvas.put_pixel(239, 27, colorize_u16(0x0100));
    assert!(can_decode_objects(&canvas, 0));
    assert_eq!(
        decode_objects(&canvas, 0),
        vec![Object {
            x_position: 239 * 160,
            y_position: 26 * 160,
            z_position: 0,
            object_type: 1,
            transformation_id: 0,
            object_flags: 0,
            width: 0,
            height: 0,
            child_object_type: 0,
            child_object_transformation_id: 0,
            child_object_flags: 0,
            extended_object_data: 0,
            link_id: -1,
            effect_index: -1,
        }]
    );
}

#[test]
fn can_encode_objects_asks_for_room_for_every_written_object() {
    let obj = object_at(2 * 160, 160, 0, 1);
    assert!(can_encode_objects(Layout::Full, &vec![obj], &Canvas::new(3, 219), 0));
    assert!(!can_encode_objects(Layout::Full, &vec![obj], &Canvas::new(2, 219), 0));
    assert!(!can_encode_objects(Layout::Full, &vec![obj], &Canvas::new(3, 218), 0));
    assert!(!can_encode_objects(Layout::Full, &vec![obj], &Canvas::new(3, 219), 1));
    assert!(can_encode_objects(Layout::Full, &vec![obj], &Canvas::new(3, 220), 1));
}

#[test]
fn can_encode_objects_does_not_ask_for_room_for_dropped_objects() {
    let objs = vec![object_at(241 * 160, 0, 0, 1), object_at(0, 28 * 160, 0, 1)];
    assert!(can_encode_objects(Layout::Full, &objs, &Canvas::new(0, 0), 0));
    assert!(can_encode_objects(Layout::Full, &Vec::new(), &Canvas::new(0, 0), u32::MAX));
}

#[test]
fn can_encode_objects_does_not_overflow_at_the_largest_offset() {
    let obj = object_at(0, 0, 0, 1);
    assert!(!can_encode_objects(Layout::Full, &vec![obj], &Canvas::new(1, 256), u32::MAX));
}

#[test]
fn can_decode_objects_asks_for_the_first_band_in_full() {
    assert!(can_decode_objects(&Canvas::new(240, 28), 0));
    assert!(!can_decode_objects(&Canvas::new(239, 28), 0));
    assert!(!can_decode_objects(&Canvas::new(240, 27), 0));
    assert!(!can_decode_objects(&Canvas::new(240, 28), 1));
    assert!(can_decode_objects(&Canvas::new(240, 138), 110));
    assert!(!can_decode_objects(&Canvas::new(240, 256), u32::MAX));
}

#[test]
fn can_decode_objects_asks_for_all_bands_of_occupied_cells() {
    let mut canvas = Canvas::new(240, 218);
    canvas.put_pixel(0, 1, colorize_u16(0x0100));
    assert!(can_decode_objects(&canvas, 0));
    let mut canvas = Canvas::new(240, 217);
    canvas.put_pixel(0, 1, colorize_u16(0x0100));
    assert!(!can_decode_objects(&canvas, 0));
    let mut canvas = Canvas::new(240, 218);
    canvas.put_pixel(0, 2, colorize_u16(0x0100));
    assert!(!can_decode_objects(&canvas, 0));
}

#[test]
fn decode_objects_of_a_short_blank_canvas() {
    let canvas = Canvas::new(240, 28);
    assert_eq!(decode_objects(&canvas, 0), vec![]);
}

#[test]
fn a_fresh_canvas_shows_no_object() {
    assert!(shows_no_object(&Canvas::new(240, 28), 0));
    assert!(shows_no_object(&Canvas::new(256, 256), 110));
}

#[test]
fn a_canvas_that_does_not_hold_the_first_band_shows_nothing() {
    assert!(!shows_no_object(&Canvas::new(239, 28), 0));
    assert!(!shows_no_object(&Canvas::new(240, 27), 0));
    assert!(!shows_no_object(&Canvas::new(240, 28), 1));
    assert!(!shows_no_object(&Canvas::new(240, 28), u32::MAX));
}

#[test]
fn a_canvas_with_an_object_does_not_show_none() {
    let mut canvas = Canvas::new(256, 256);
    encode_objects(Layout::Full, &vec![object_at(239 * 160, 26 * 160, 0, 1)], &mut canvas, 0);
    assert!(!shows_no_object(&canvas, 0));
    assert!(shows_no_object(&canvas, 27));
    let mut canvas = Canvas::new(256, 256);
    encode_objects(Layout::Full, &vec![object_at(0, 0, 0, 0)], &mut canvas, 0);
    assert!(shows_no_object(&canvas, 0));
}
