use vis_parser::color::{Color, Palette};
use vis_parser::error::{Error, ErrorKind};
use vis_parser::text::str_eq;
use vis_parser::unique_id_generator::{u32_to_base62, UIDGen, UID};

#[test]
fn default_color_is_all_channels_full() {
    assert_eq!(Color::default(), Color::new(255, 255, 255));
}

#[test]
fn hex_color_is_read_channel_by_channel() {
    assert_eq!(Color::from_str_based_on("#112233"), Ok(Color::new(0x11, 0x22, 0x33)));
    assert_eq!(Color::from_str_based_on("#000000"), Ok(Color::new(0, 0, 0)));
    assert_eq!(Color::from_str_based_on("#ffffff"), Ok(Color::new(255, 255, 255)));
    assert_eq!(Color::from_str_based_on("#FfA0b9"), Ok(Color::new(0xff, 0xa0, 0xb9)));
}

#[test]
fn bad_hex_color_is_refused() {
    assert_eq!(Color::from_str_based_on("#11223g"), Err(Error::BadColor));
    assert_eq!(Color::from_str_based_on("#+1+2+3"), Err(Error::BadColor));
    assert_eq!(Color::from_str_based_on("#1122"), Err(Error::BadColor));
    assert_eq!(Color::from_str_based_on("#11223344"), Err(Error::BadColor));
    assert_eq!(Color::from_str_based_on(""), Err(Error::BadColor));
    assert_eq!(Color::from_str_based_on("#é1234"), Err(Error::BadColor));
    assert_eq!(Color::from_str_based_on("#1é2345"), Err(Error::BadColor));
}

#[test]
fn palette_names_in_any_case() {
    assert_eq!(Palette::get("white"), Ok(Palette::white()));
    assert_eq!(Palette::get("WHITE"), Ok(Palette::white()));
    assert_eq!(Palette::get("Black"), Ok(Palette::black()));
    assert_eq!(Palette::get("green"), Ok(Palette::green()));
    assert_eq!(Palette::get("Paris Green"), Ok(Palette::paris_green()));
    assert_eq!(Palette::get("blue"), Ok(Palette::blue()));
    assert_eq!(Palette::get("INDIGO BLUE"), Ok(Palette::indigo_blue()));
    assert_eq!(Palette::get("red"), Ok(Palette::red()));
    assert_eq!(Palette::get("Deep Scarlet"), Ok(Palette::deep_scarlet()));
    assert_eq!(Color::from_str_based_on("Blue"), Ok(Palette::blue()));
}

#[test]
fn palette_values() {
    assert_eq!(Palette::white(), Color::new(0, 0, 0));
    assert_eq!(Palette::black(), Color::new(255, 255, 255));
    assert_eq!(Palette::green(), Color::new(62, 179, 112));
    assert_eq!(Palette::paris_green(), Color::new(0, 163, 129));
    assert_eq!(Palette::blue(), Color::new(0, 149, 217));
    assert_eq!(Palette::indigo_blue(), Color::new(39, 74, 120));
    assert_eq!(Palette::red(), Color::new(230, 0, 51));
    assert_eq!(Palette::deep_scarlet(), Color::new(201, 23, 30));
}

#[test]
fn unknown_palette_name_is_refused() {
    assert_eq!(Palette::get("purple"), Err(Error::BadColor));
    assert_eq!(Palette::get("parisgreen"), Err(Error::BadColor));
    assert_eq!(Palette::get(""), Err(Error::BadColor));
}

#[test]
fn color_is_written_with_two_digits_for_each_channel() {
    assert_eq!(Color::new(0, 0, 0).to_hex(), "#000000");
    assert_eq!(Color::new(1, 2, 3).to_hex(), "#010203");
    assert_eq!(Color::new(255, 171, 9).to_hex(), "#ffab09");
    assert_eq!(Color::new(127, 127, 127).to_hex(), "#7f7f7f");
}

#[test]
fn hex_round_trip() {
    for v in [0u8, 1, 9, 10, 15, 16, 127, 128, 200, 255].iter() {
        let c = Color::new(*v, 255 - *v, *v / 2);
        assert_eq!(Color::from_str_based_on(c.to_hex().as_str()), Ok(c));
    }
}

#[test]
fn error_kinds() {
    assert_eq!(Error::MalformedSettings.kind(), ErrorKind::BadConfig);
    assert_eq!(Error::InitialTextShape.kind(), ErrorKind::BadConfig);
    assert_eq!(Error::UnknownElem.kind(), ErrorKind::BadConfig);
    assert_eq!(Error::UnknownParam.kind(), ErrorKind::BadConfig);
    assert_eq!(Error::UnknownCommand.kind(), ErrorKind::ParseError);
    assert_eq!(Error::NonFiniteTime.kind(), ErrorKind::ParseError);
    assert_eq!(Error::MissingWord { input: 2 }.kind(), ErrorKind::ParseError);
    assert_eq!(Error::UndeterminedWidth.kind(), ErrorKind::ParseError);
    assert_eq!(Error::UndeterminedHeight.kind(), ErrorKind::ParseError);
    assert_eq!(Error::BadNumber.kind(), ErrorKind::ParseError);
    assert_eq!(Error::BadColor.kind(), ErrorKind::ParseError);
    assert_eq!(Error::PointsBeforeCount.kind(), ErrorKind::ParseError);
}

#[test]
fn base62_digits() {
    assert_eq!(u32_to_base62(0), "");
    assert_eq!(u32_to_base62(1), "1");
    assert_eq!(u32_to_base62(9), "9");
    assert_eq!(u32_to_base62(10), "a");
    assert_eq!(u32_to_base62(35), "z");
    assert_eq!(u32_to_base62(36), "A");
    assert_eq!(u32_to_base62(61), "Z");
    assert_eq!(u32_to_base62(62), "10");
    assert_eq!(u32_to_base62(63), "11");
    assert_eq!(u32_to_base62(62 * 62), "100");
    assert_eq!(u32_to_base62(62 * 62 - 1), "ZZ");
    assert_eq!(u32_to_base62(u32::MAX), "4GFfc3");
}

#[test]
fn uids_count_from_one_in_base62() {
    let mut gen = UIDGen::new();
    let mut texts: Vec<String> = Vec::new();
    for _ in 0..62 {
        texts.push(gen.gen().to_text());
    }
    let digits = "123456789abcdefghijklmnopqrstuvwxyzABCDEFGHIJKLMNOPQRSTUVWXYZ";
    for (i, c) in digits.chars().enumerate() {
        assert_eq!(texts[i], c.to_string());
    }
    assert_eq!(texts[61], "10");
    assert_eq!(gen.gen().to_text(), "11");
}

#[test]
fn unset_uid_is_written_as_not_set() {
    assert_eq!(UID::unset().value, 0);
    assert_eq!(UID::unset().to_text(), "not set");
}

#[test]
fn generator_hands_out_successive_values() {
    let mut gen = UIDGen::new();
    assert_eq!(gen.gen().value, 1);
    assert_eq!(gen.gen().value, 2);
    assert_eq!(gen.gen().value, 3);
    assert_eq!(gen.count, 3);
}

#[test]
fn lowered_palette_names() {
    assert_eq!(Palette::get_lowered("white"), Ok(Palette::white()));
    assert_eq!(Palette::get_lowered("paris green"), Ok(Palette::paris_green()));
    assert_eq!(Palette::get_lowered("deep scarlet"), Ok(Palette::deep_scarlet()));
    assert_eq!(Palette::get_lowered("White"), Err(Error::BadColor));
    assert_eq!(Palette::get_lowered("whit"), Err(Error::BadColor));
    assert_eq!(Palette::get_lowered("whitee"), Err(Error::BadColor));
}

#[test]
fn texts_are_compared_by_their_characters() {
    assert!(str_eq("", ""));
    assert!(str_eq("groupID", "groupID"));
    assert!(!str_eq("groupID", "groupId"));
    assert!(!str_eq("a", "ab"));
    assert!(!str_eq("ab", "a"));
    assert!(str_eq("é\u{3000}x", "é\u{3000}x"));
    assert!(!str_eq("é", "e"));
}
