use chrono::{NaiveDate, NaiveDateTime};
use mm1_level_to_img::assemble::{can_decode, can_encode, level_name_from_words};
use mm1_level_to_img::canvas::Canvas;
use mm1_level_to_img::color::{colorize_u16, colorize_u8, Color};
use mm1_level_to_img::level::{
    AutoScroll, Course, CourseTheme, GameMode, Header, Level, Object, SoundEffect,
};
use mm1_level_to_img::{
    create_image_from_course, image_from_level, level_from_img, level_from_img_with,
};

fn some_time() -> NaiveDateTime {
    NaiveDate::from_ymd_opt(2015, 9, 10).unwrap().and_hms_opt(12, 34, 56).unwrap()
}

fn level_with(objects: Vec<Object>) -> Level {
    Level {
        game_mode: GameMode::SuperMarioBros3,
        course_theme: CourseTheme::Castle,
        time_limit: 300,
        auto_scroll: AutoScroll::Off,
        flags: 0x05,
        width: 64,
        objects,
        version: 11,
        creation_time: some_time(),
        level_name: String::from("first"),
        mii_data: [7; 96],
        sound_effects: vec![SoundEffect {
            effect_type: 1,
            variation: 2,
            x_position: 3,
            y_position: 4,
        }],
    }
}

fn plain_object() -> Object {
    Object {
        x_position: 320,
        y_position: 160,
        z_position: 5,
        object_type: 3,
        transformation_id: 0,
        object_flags: 0,
        width: 1,
        height: 1,
        child_object_type: 0,
        child_object_transformation_id: 0,
        child_object_flags: 0,
        extended_object_data: 0,
        link_id: -1,
        effect_index: -1,
    }
}

#[test]
fn header_of_a_level_holds_its_scalar_fields() {
    assert_eq!(
        level_with(Vec::new()).header(),
        Header {
            game_mode: GameMode::SuperMarioBros3,
            course_theme: CourseTheme::Castle,
            time_limit: 300,
            auto_scroll: AutoScroll::Off,
            flags: 0x05,
            width: 64,
        }
    );
}

#[test]
fn a_level_without_objects_round_trips() {
    let level = level_with(Vec::new());
    let mut canvas = Canvas::new(256, 256);
    assert!(can_encode(&level, &canvas, 0));
    image_from_level(&level, &mut canvas, 0);
    assert!(can_decode(&canvas, 0));
    let back = level_from_img(&canvas, 0);
    assert_eq!(back.header(), level.header());
    assert_eq!(back.game_mode, GameMode::SuperMarioBros3);
    assert_eq!(back.course_theme, CourseTheme::Castle);
    assert_eq!(back.time_limit, 300);
    assert_eq!(back.auto_scroll, AutoScroll::Off);
    assert_eq!(back.flags, 0x05);
    assert_eq!(back.width, 64);
    assert!(back.objects.is_empty());
}

#[test]
fn a_level_with_one_object_round_trips() {
    let level = level_with(vec![plain_object()]);
    let mut canvas = Canvas::new(256, 256);
    image_from_level(&level, &mut canvas, 0);
    let back = level_from_img(&canvas, 0);
    assert_eq!(back.game_mode.code(), 1);
    assert_eq!(back.course_theme.code(), 2);
    assert_eq!(back.time_limit, 300);
    assert_eq!(back.auto_scroll.code(), 0);
    assert_eq!(back.flags, 0x05);
    assert_eq!(back.width, 64);
    assert_eq!(back.objects.len(), 1);
    assert_eq!(back.objects[0].x_position / 160, 2);
    assert_eq!(back.objects[0].y_position / 160, 1);
    assert_eq!(back.objects[0].object_type, 3);
    assert_eq!(back.objects[0], plain_object());
}

#[test]
fn image_from_level_writes_the_header_on_its_row_and_the_objects_below() {
    let level = level_with(vec![plain_object()]);
    let mut canvas = Canvas::new(256, 256);
    image_from_level(&level, &mut canvas, 5);
    assert_eq!(canvas.get_pixel(0, 5), colorize_u8(1 << 6));
    assert_eq!(canvas.get_pixel(1, 5), colorize_u8(2 << 5));
    assert_eq!(canvas.get_pixel(2, 5), colorize_u16(300));
    assert_eq!(canvas.get_pixel(3, 5), colorize_u8(0));
    assert_eq!(canvas.get_pixel(4, 5), colorize_u8(5));
    assert_eq!(canvas.get_pixel(5, 5), colorize_u8(64));
    assert_eq!(canvas.get_pixel(2, 5 + 1 + 1), colorize_u16(0x0300));
    assert_eq!(canvas.get_pixel(2, 5 + 1 + 1 + 54), colorize_u16(5));
    assert_eq!(canvas.get_pixel(2, 5 + 1 + 1 + 135), colorize_u16(0x0101));
    for x in 0..256 {
        for y in 0..5 {
            assert_eq!(canvas.get_pixel(x, y), Color { r: 0, g: 0, b: 0 });
        }
    }
}

#[test]
fn level_from_img_fills_in_what_the_canvas_does_not_hold() {
    let level = level_with(vec![plain_object()]);
    let mut canvas = Canvas::new(256, 256);
    image_from_level(&level, &mut canvas, 0);
    let back = level_from_img(&canvas, 0);
    assert_eq!(back.version, 0);
    assert_eq!(back.mii_data, [0u8; 96]);
    assert!(back.sound_effects.is_empty());
    let words: Vec<&str> = back.level_name.splitn(2, '-').collect();
    assert_eq!(words.len(), 2);
}

#[test]
fn level_from_img_with_takes_the_name_and_the_time_it_is_given() {
    let level = level_with(vec![plain_object()]);
    let mut canvas = Canvas::new(256, 256);
    image_from_level(&level, &mut canvas, 0);
    let back = level_from_img_with(&canvas, 0, String::from("quiet-river"), some_time());
    assert_eq!(back.level_name, "quiet-river");
    assert_eq!(back.creation_time, some_time());
    assert_eq!(back.version, 0);
    assert_eq!(back.mii_data, [0u8; 96]);
    assert!(back.sound_effects.is_empty());
    assert_eq!(back.header(), level.header());
    assert_eq!(back.objects, vec![plain_object()]);
}

#[test]
fn level_name_from_words_joins_with_a_hyphen() {
    assert_eq!(level_name_from_words("quiet", "river"), "quiet-river");
    assert_eq!(level_name_from_words("", ""), "-");
}

#[test]
fn two_levels_on_one_canvas_do_not_disturb_each_other() {
    let main = level_with(vec![plain_object()]);
    let mut sub = level_with(Vec::new());
    sub.course_theme = CourseTheme::Water;
    sub.width = 0x0102_0304;
    sub.objects.push(Object { x_position: 0, y_position: 26 * 160, ..plain_object() });
    let mut canvas = Canvas::new(256, 512);
    assert!(can_encode(&main, &canvas, 5));
    assert!(can_encode(&sub, &canvas, 260));
    image_from_level(&main, &mut canvas, 5);
    image_from_level(&sub, &mut canvas, 260);
    let back = level_from_img(&canvas, 5);
    assert_eq!(back.header(), main.header());
    assert_eq!(back.objects, main.objects);
    let back = level_from_img(&canvas, 260);
    assert_eq!(back.header(), sub.header());
    assert_eq!(back.objects, sub.objects);
}

#[test]
fn can_encode_asks_for_room_for_the_header() {
    let level = level_with(Vec::new());
    assert!(can_encode(&level, &Canvas::new(9, 1), 0));
    assert!(!can_encode(&level, &Canvas::new(8, 1), 0));
    assert!(!can_encode(&level, &Canvas::new(9, 1), 1));
    assert!(can_encode(&level, &Canvas::new(9, 111), 110));
}

#[test]
fn can_encode_asks_for_room_for_the_objects() {
    let level = level_with(vec![plain_object()]);
    assert!(can_encode(&level, &Canvas::new(256, 256), 0));
    assert!(can_encode(&level, &Canvas::new(256, 256), 37));
    assert!(!can_encode(&level, &Canvas::new(256, 256), 38));
    assert!(!can_encode(&level, &Canvas::new(256, 256), 110));
}

#[test]
fn can_decode_on_a_canvas_of_the_usual_size() {
    assert!(can_decode(&Canvas::new(256, 256), 0));
    assert!(can_decode(&Canvas::new(256, 256), 110));
    assert!(!can_decode(&Canvas::new(256, 256), 229));
    assert!(!can_decode(&Canvas::new(8, 256), 0));
}

#[test]
fn create_image_from_course_draws_the_level_at_the_top() {
    let course = Course { level: level_with(vec![plain_object()]), sub_level: level_with(Vec::new()) };
    let canvas = create_image_from_course(&course);
    assert_eq!(canvas.width(), 256);
    assert_eq!(canvas.height(), 256);
    let mut expected = Canvas::new(256, 256);
    image_from_level(&course.level, &mut expected, 0);
    assert_eq!(canvas.into_raw(), expected.into_raw());
}

#[test]
fn create_image_from_course_can_be_read_back() {
    let course = Course { level: level_with(vec![plain_object()]), sub_level: level_with(Vec::new()) };
    let canvas = create_image_from_course(&course);
    assert!(can_decode(&canvas, 0));
    let back = level_from_img(&canvas, 0);
    assert_eq!(back.header(), course.level.header());
    assert_eq!(back.objects, course.level.objects);
}

#[test]
fn image_from_course_is_the_two_levels_in_turn() {
    let mut sub = level_with(Vec::new());
    sub.course_theme = CourseTheme::Water;
    sub.objects.push(Object { x_position: 160, ..plain_object() });
    let course = Course { level: level_with(vec![plain_object()]), sub_level: sub };
    let mut canvas = Canvas::new(256, 512);
    mm1_level_to_img::image_from_course(&course, &mut canvas, 5, 260);
    let back = level_from_img(&canvas, 5);
    assert_eq!(back.header(), course.level.header());
    assert_eq!(back.objects, course.level.objects);
    let back = level_from_img(&canvas, 260);
    assert_eq!(back.header(), course.sub_level.header());
    assert_eq!(back.objects, course.sub_level.objects);
    let mut expected = Canvas::new(256, 512);
    image_from_level(&course.level, &mut expected, 5);
    image_from_level(&course.sub_level, &mut expected, 260);
    assert_eq!(canvas.into_raw(), expected.into_raw());
}
