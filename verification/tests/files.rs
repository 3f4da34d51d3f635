use airjump::configuration::read_configuration_file;
use airjump::configuration::EventLoop;
use airjump::configuration::Window;
use airjump::configuration::CONFIG_FILE;
use airjump::error::AirjumpError;
use airjump::map::read_map_file;
use airjump::map::MAP_FILE;

#[test]
fn file_names() {
    assert_eq!(CONFIG_FILE, "config.toml");
    assert_eq!(MAP_FILE, "map.svg");
}

#[test]
fn configuration_file_is_read_as_text() {
    let text = read_configuration_file(b"[event_loop]\nmax_fps = 60\n".to_vec());
    assert_eq!(text.unwrap(), "[event_loop]\nmax_fps = 60\n");
}

#[test]
fn configuration_file_may_be_empty() {
    assert_eq!(read_configuration_file(Vec::new()).unwrap(), "");
}

#[test]
fn configuration_file_keeps_letters_of_several_bytes() {
    let text = read_configuration_file(vec![0x63, 0x61, 0x66, 0xc3, 0xa9, 0xe2, 0x82, 0xac]);
    assert_eq!(text.unwrap(), "caf\u{e9}\u{20ac}");
}

#[test]
fn configuration_file_that_is_not_text_is_an_input_error() {
    match read_configuration_file(vec![0x61, 0xff, 0x62]) {
        Err(AirjumpError::Io(why)) => assert_eq!(why, "stream did not contain valid UTF-8"),
        _ => panic!("bytes that are not UTF-8 were read as text"),
    }
}

#[test]
fn configuration_file_cut_inside_a_letter_is_an_input_error() {
    assert!(matches!(read_configuration_file(vec![0xe2, 0x82]), Err(AirjumpError::Io(_))));
}

#[test]
fn map_file_is_read_as_text() {
    let text = read_map_file(b"<svg><circle id=\"start\" cx=\"1\" cy=\"2\"/></svg>".to_vec());
    assert_eq!(text.unwrap(), "<svg><circle id=\"start\" cx=\"1\" cy=\"2\"/></svg>");
}

#[test]
fn map_file_that_is_not_text_is_an_input_error() {
    match read_map_file(vec![0xc0, 0x80]) {
        Err(AirjumpError::Io(why)) => assert_eq!(why, "stream did not contain valid UTF-8"),
        _ => panic!("bytes that are not UTF-8 were read as text"),
    }
}

#[test]
fn window_and_loop_settings_are_plain_values() {
    let window = Window { samples: 4, vsync: true };
    assert_eq!(window, Window { samples: 4, vsync: true });
    assert_ne!(window, Window { samples: 4, vsync: false });
    let event_loop = EventLoop { max_fps: 60 };
    assert_eq!(event_loop.max_fps, 60);
}
