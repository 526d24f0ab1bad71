use gpuix::color::{parse_color_bytes, parse_color_hex};

#[test]
fn hex_three_digits_doubles_each_digit() {
    assert_eq!(parse_color_hex("#fff"), Some(0xffffffff));
    assert_eq!(parse_color_hex("#f80"), Some(0xff8800ff));
    assert_eq!(parse_color_hex("#000"), Some(0x000000ff));
}

#[test]
fn hex_six_digits_is_opaque() {
    assert_eq!(parse_color_hex("#1e1e2e"), Some(0x1e1e2eff));
    assert_eq!(parse_color_hex("#ABCDEF"), Some(0xabcdefff));
}

#[test]
fn hex_eight_digits_carries_alpha() {
    assert_eq!(parse_color_hex("#11223344"), Some(0x11223344));
    assert_eq!(parse_color_hex("#00000000"), Some(0));
}

#[test]
fn hex_of_other_lengths_is_no_color() {
    assert_eq!(parse_color_hex("#"), None);
    assert_eq!(parse_color_hex("#ff"), None);
    assert_eq!(parse_color_hex("#ffff"), None);
    assert_eq!(parse_color_hex("#fffff"), None);
    assert_eq!(parse_color_hex("#fffffff"), None);
    assert_eq!(parse_color_hex("#fffffffff"), None);
}

#[test]
fn hex_with_a_bad_digit_is_no_color() {
    assert_eq!(parse_color_hex("#ggg"), None);
    assert_eq!(parse_color_hex("#12345z"), None);
    assert_eq!(parse_color_hex("#+f+f+f"), None);
}

#[test]
fn rgb_packs_three_channels() {
    assert_eq!(parse_color_hex("rgb(255,0,0)"), Some(0xff0000ff));
    assert_eq!(parse_color_hex("rgb(1, 2, 3)"), Some(0x010203ff));
    assert_eq!(parse_color_hex("rgb( 128 ,128, 128 )"), Some(0x808080ff));
}

#[test]
fn rgb_holds_channels_to_a_byte() {
    assert_eq!(parse_color_hex("rgb(300,0,0)"), Some(0xff0000ff));
    assert_eq!(parse_color_hex("rgb(-5,10,20)"), Some(0x000a14ff));
    assert_eq!(parse_color_hex("rgb(12.9,0,0)"), Some(0x0c0000ff));
}

#[test]
fn rgba_scales_alpha() {
    assert_eq!(parse_color_hex("rgba(255,255,255,1)"), Some(0xffffffff));
    assert_eq!(parse_color_hex("rgba(0,0,0,0)"), Some(0x00000000));
    assert_eq!(parse_color_hex("rgba(0,0,0,0.5)"), Some(0x0000007f));
    assert_eq!(parse_color_hex("rgba(10,20,30,.25)"), Some(0x0a141e3f));
    assert_eq!(parse_color_hex("rgba(0,0,0,2)"), Some(0x000000ff));
}

#[test]
fn functional_forms_need_the_right_number_of_components() {
    assert_eq!(parse_color_hex("rgb(1,2)"), None);
    assert_eq!(parse_color_hex("rgb(1,2,3,4)"), None);
    assert_eq!(parse_color_hex("rgba(1,2,3)"), None);
    assert_eq!(parse_color_hex("rgba(1,2,3,4,5)"), None);
    assert_eq!(parse_color_hex("rgb()"), None);
    assert_eq!(parse_color_hex("rgb(1,2,3"), None);
    assert_eq!(parse_color_hex("rgb(a,b,c)"), None);
}

#[test]
fn surrounding_white_space_is_skipped() {
    assert_eq!(parse_color_hex("  #fff \n"), Some(0xffffffff));
    assert_eq!(parse_color_hex("\trgb(0,0,255) "), Some(0x0000ffff));
}

#[test]
fn unknown_forms_are_no_color() {
    assert_eq!(parse_color_hex(""), None);
    assert_eq!(parse_color_hex("   "), None);
    assert_eq!(parse_color_hex("red"), None);
    assert_eq!(parse_color_hex("hsl(0,0,0)"), None);
    assert_eq!(parse_color_hex("ff0000"), None);
    assert_eq!(parse_color_hex("#ff\u{e9}"), None);
}

#[test]
fn bytes_and_text_agree() {
    assert_eq!(parse_color_bytes(b"#102030"), Some(0x102030ff));
    assert_eq!(parse_color_bytes(b"nope"), None);
}
