use place_rs::text::IntErrorKind;
use place_rs::{Arg, Color, Error, GenericPixelWithLocation, ToServerMsg, XY};

fn words(s: &str) -> Vec<String> {
    s.split_whitespace().map(|w| w.to_string()).collect()
}

#[test]
fn parse_setpixel() {
    let r = ToServerMsg::parse(words("setpixel 10 20 255 0 7"), "n1".to_string());
    assert_eq!(
        r,
        Ok(ToServerMsg::SetPixel(
            "n1".to_string(),
            GenericPixelWithLocation { location: XY { x: 10, y: 20 }, color: Color { r: 255, g: 0, b: 7 } }
        ))
    );
}

#[test]
fn parse_setpixel_errors_in_argument_order() {
    assert_eq!(ToServerMsg::parse(words("setpixel"), "n".to_string()), Err(Error::MissingArgument(Arg::X)));
    assert_eq!(ToServerMsg::parse(words("setpixel 1"), "n".to_string()), Err(Error::MissingArgument(Arg::Y)));
    assert_eq!(ToServerMsg::parse(words("setpixel 1 2 3 4"), "n".to_string()), Err(Error::MissingArgument(Arg::B)));
    assert_eq!(
        ToServerMsg::parse(words("setpixel x 2 3 4 5"), "n".to_string()),
        Err(Error::BadNumber(IntErrorKind::InvalidDigit))
    );
    assert_eq!(
        ToServerMsg::parse(words("setpixel 1 2 256 4 5"), "n".to_string()),
        Err(Error::BadNumber(IntErrorKind::PosOverflow))
    );
    assert_eq!(
        ToServerMsg::parse(words("setpixel 1 2 +3 4 5"), "n".to_string()),
        Ok(ToServerMsg::SetPixel(
            "n".to_string(),
            GenericPixelWithLocation { location: XY { x: 1, y: 2 }, color: Color { r: 3, g: 4, b: 5 } }
        ))
    );
    assert_eq!(Error::MissingArgument(Arg::X).message(), "No x");
    assert_eq!(Error::BadNumber(IntErrorKind::InvalidDigit).message(), "invalid digit found in string");
    assert_eq!(Error::BadNumber(IntErrorKind::PosOverflow).message(), "number too large to fit in target type");
}

#[test]
fn parse_other_commands() {
    assert_eq!(
        ToServerMsg::parse(words("setname bob"), "n".to_string()),
        Ok(ToServerMsg::SetName("n".to_string(), "bob".to_string()))
    );
    assert_eq!(ToServerMsg::parse(words("setname"), "n".to_string()), Err(Error::MissingArgument(Arg::Name)));
    assert_eq!(Error::MissingArgument(Arg::Name).message(), "No name");
    assert_eq!(ToServerMsg::parse(words("heartbeat"), "n".to_string()), Ok(ToServerMsg::Heartbeat("n".to_string())));
    assert_eq!(
        ToServerMsg::parse(words("requestplace"), "n".to_string()),
        Ok(ToServerMsg::RequestPlace("binary".to_string()))
    );
    assert_eq!(
        ToServerMsg::parse(words("msg hello   big  world"), "n".to_string()),
        Ok(ToServerMsg::ChatMsg("n".to_string(), "hello big world".to_string()))
    );
    assert_eq!(
        ToServerMsg::parse(vec!["msg".to_string(), " a ".to_string(), "b\t".to_string()], "n".to_string()),
        Ok(ToServerMsg::ChatMsg("n".to_string(), "a  b".to_string()))
    );
    assert_eq!(ToServerMsg::parse(words("msg"), "n".to_string()), Ok(ToServerMsg::ChatMsg("n".to_string(), String::new())));
    assert_eq!(ToServerMsg::parse(vec![], "n".to_string()), Err(Error::NoCommand));
    assert_eq!(ToServerMsg::parse(words("paint 1 2"), "n".to_string()), Err(Error::UnknownCommand));
    assert_eq!(Error::NoCommand.message(), "No command");
    assert_eq!(Error::UnknownCommand.message(), "Unknown command");
}

#[test]
fn safe_info_holds_size() {
    let s = place_rs::SafeInfo::new(XY { x: 3, y: 4 });
    assert_eq!(s.size, XY { x: 3, y: 4 });
}
