use lora_mesh::controls::{read_direction, Altimeter, Direction, DisplayMode, LineNumber, LCD};

#[test]
fn direction_labels() {
    assert_eq!(Direction::Neutral.as_str(), "Ne");
    assert_eq!(Direction::NorthWest.as_str(), "NW");
    assert_eq!(Direction::SouthEast.as_str(), "SE");
    assert_eq!(Direction::West.as_str(), "W");
}

#[test]
fn joystick_directions() {
    assert_eq!(read_direction(false, false, false, false), Direction::Neutral);
    assert_eq!(read_direction(true, false, false, false), Direction::North);
    assert_eq!(read_direction(true, true, false, false), Direction::NorthWest);
    assert_eq!(read_direction(true, false, true, false), Direction::NorthEast);
    assert_eq!(read_direction(true, true, true, false), Direction::North);
    assert_eq!(read_direction(false, true, false, true), Direction::SouthWest);
    assert_eq!(read_direction(false, false, true, true), Direction::SouthEast);
    assert_eq!(read_direction(false, false, true, false), Direction::East);
    assert_eq!(read_direction(false, false, false, true), Direction::South);
}

#[test]
fn altimeter_raw_temperature() {
    let altimeter = Altimeter::new();
    assert_eq!(altimeter.temperature, 0);
    assert_eq!(altimeter.pressure, 0);
    assert_eq!(Altimeter::raw_temperature([0x80, 0x00, 0x10]), 0x80001);
}

#[test]
fn lcd_frames_and_cursor() {
    assert_eq!(LCD::command_frame(0x30), [0x3C, 0x38, 0x0C, 0x08]);
    assert_eq!(LCD::data_frame(0x41), [0x4D, 0x49, 0x1D, 0x19]);
    let mut lcd = LCD::new();
    assert_eq!(lcd.content, "");
    assert_eq!(lcd.set_cursor(LineNumber::FourthLine, 4), 0xD8);
    assert_eq!(lcd.set_cursor(LineNumber::SecondLine, 40), 0xD3);
    assert_eq!(lcd.index, 19);
    assert_eq!(lcd.line, LineNumber::SecondLine);
    assert_ne!(DisplayMode::Welcome, DisplayMode::Data);
}
