use airjump::error::AirjumpError;

#[test]
fn message_of_an_input_error() {
    assert_eq!(AirjumpError::Io("no such file".to_string()).message(), "Io error: no such file");
}

#[test]
fn message_of_a_toml_parser_error() {
    assert_eq!(
        AirjumpError::TomlParser("line 3".to_string()).message(),
        "Toml parser error:\nline 3"
    );
}

#[test]
fn message_of_a_toml_decode_error() {
    assert_eq!(
        AirjumpError::TomlDecode("missing field".to_string()).message(),
        "Toml decode error: missing field"
    );
}

#[test]
fn message_of_a_window_error() {
    assert_eq!(
        AirjumpError::GliumWindow("no display".to_string()).message(),
        "Glium window error: no display"
    );
}

#[test]
fn message_of_an_svg_error() {
    assert_eq!(AirjumpError::Svg("EndOfStream".to_string()).message(), "Svg parser error: EndOfStream");
}

#[test]
fn message_of_an_error_without_text() {
    assert_eq!(AirjumpError::Io(String::new()).message(), "Io error: ");
}
