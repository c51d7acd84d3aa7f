//! Vehicle-side controls: joystick direction, altimeter reading and the
//! character display's command bytes. The pins, buses and delays belong to
//! the caller.
use vstd::prelude::*;

verus! {

/// Direction the joystick points to.
#[derive(Debug, Clone, Copy, PartialEq, Eq, Structural)]
pub enum Direction {
    Neutral,
    North,
    NorthEast,
    NorthWest,
    South,
    SouthEast,
    SouthWest,
    East,
    West,
}

/// Short label of a direction, as drawn on the display.
pub open spec fn direction_label(d: Direction) -> Seq<char> {
    match d {
        Direction::Neutral => "Ne"@,
        Direction::North => "N"@,
        Direction::NorthEast => "NE"@,
        Direction::NorthWest => "NW"@,
        Direction::South => "S"@,
        Direction::SouthEast => "SE"@,
        Direction::SouthWest => "SW"@,
        Direction::East => "E"@,
        Direction::West => "W"@,
    }
}

impl Direction {
    pub fn as_str(&self) -> (r: &'static str)
        ensures
            r@ == direction_label(*self),
    {
        match self {
            Direction::Neutral => "Ne",
            Direction::North => "N",
            Direction::NorthEast => "NE",
            Direction::NorthWest => "NW",
            Direction::South => "S",
            Direction::SouthEast => "SE",
            Direction::SouthWest => "SW",
            Direction::East => "E",
            Direction::West => "W",
        }
    }
}

/// Direction read from the four switches of the joystick. North takes
/// precedence, then west, then east, then south; a diagonal is reported when
/// the perpendicular switch is also closed (and, for north, its opposite is
/// open).
pub open spec fn direction_of(north: bool, west: bool, east: bool, south: bool) -> Direction {
    if north {
        if west && !east {
            Direction::NorthWest
        } else if east && !west {
            Direction::NorthEast
        } else {
            Direction::North
        }
    } else if west {
        if south {
            Direction::SouthWest
        } else {
            Direction::West
        }
    } else if east {
        if south {
            Direction::SouthEast
        } else {
            Direction::East
        }
    } else if south {
        Direction::South
    } else {
        Direction::Neutral
    }
}

/// Decodes the joystick switches into a direction.
pub fn read_direction(north: bool, west: bool, east: bool, south: bool) -> (r: Direction)
    ensures
        r == direction_of(north, west, east, south),
{
    if north {
        if west && !east {
            Direction::NorthWest
        } else if east && !west {
            Direction::NorthEast
        } else {
            Direction::North
        }
    } else if west {
        if south {
            Direction::SouthWest
        } else {
            Direction::West
        }
    } else if east {
        if south {
            Direction::SouthEast
        } else {
            Direction::East
        }
    } else if south {
        Direction::South
    } else {
        Direction::Neutral
    }
}

/// Last temperature and pressure read from the barometric altimeter.
#[derive(Debug, Clone, Copy, PartialEq, Eq, Structural)]
pub struct Altimeter {
    pub temperature: i8,
    pub pressure: u16,
}

impl Altimeter {
    pub fn new() -> (r: Altimeter)
        ensures
            r.temperature == 0,
            r.pressure == 0,
    {
        Altimeter { temperature: 0, pressure: 0 }
    }

    /// The 20-bit raw temperature in the three bytes read from the
    /// altimeter's temperature registers, most significant first.
    pub fn raw_temperature(data: [u8; 3]) -> (r: u32)
        ensures
            r == (data@[0] as int * 65536 + data@[1] as int * 256 + data@[2] as int) / 16,
    {
        (data[0] as u32 * 65536 + data[1] as u32 * 256 + data[2] as u32) / 16
    }
}

/// Display line, with its address in the display's memory.
#[derive(Debug, Clone, Copy, PartialEq, Eq, Structural)]
pub enum LineNumber {
    FirstLine,
    SecondLine,
    ThirdLine,
    FourthLine,
}

impl LineNumber {
    pub open spec fn spec_offset(self) -> u8 {
        match self {
            LineNumber::FirstLine => 0x00,
            LineNumber::SecondLine => 0x40,
            LineNumber::ThirdLine => 0x14,
            LineNumber::FourthLine => 0x54,
        }
    }

    /// Address of the line's first character in display memory.
    pub fn offset(self) -> (r: u8)
        ensures
            r == self.spec_offset(),
    {
        match self {
            LineNumber::FirstLine => 0x00,
            LineNumber::SecondLine => 0x40,
            LineNumber::ThirdLine => 0x14,
            LineNumber::FourthLine => 0x54,
        }
    }
}

/// What the display shows.
#[derive(Debug, Clone, Copy, PartialEq, Eq, Structural)]
pub enum DisplayMode {
    Welcome,
    Data,
}

/// Last column of a display line.
pub const LCD_LAST_COLUMN: u8 = 19;

/// Command that sets the display address: bit 7 set, then the address.
pub const LCD_SET_ADDRESS: u8 = 0x80;

/// The four bytes sent over the display's I2C expander for one byte in
/// four-bit mode: high nibble then low nibble, each with the enable bit set
/// and then cleared; `register_select` is set for data, clear for commands.
pub open spec fn lcd_frame_spec(byte: u8, register_select: bool) -> Seq<u8> {
    let hi = (byte / 16) * 16;
    let lo = (byte % 16) * 16;
    let rs: int = if register_select { 1 } else { 0 };
    seq![(hi + 12 + rs) as u8, (hi + 8 + rs) as u8, (lo + 12 + rs) as u8, (lo + 8 + rs) as u8]
}

fn lcd_frame(byte: u8, register_select: bool) -> (r: [u8; 4])
    ensures
        r@ == lcd_frame_spec(byte, register_select),
{
    let hi: u8 = (byte / 16) * 16;
    let lo: u8 = (byte % 16) * 16;
    let rs: u8 = if register_select { 1 } else { 0 };
    let r = [hi + 12 + rs, hi + 8 + rs, lo + 12 + rs, lo + 8 + rs];
    assert(r@ =~= lcd_frame_spec(byte, register_select));
    r
}

/// Character display state: its text and the cursor position.
#[derive(Debug, Clone, PartialEq, Eq)]
pub struct LCD {
    pub content: String,
    pub line: LineNumber,
    pub index: u8,
}

impl LCD {
    pub fn new() -> (r: LCD)
        ensures
            r.content@ == Seq::<char>::empty(),
            r.line == LineNumber::FirstLine,
            r.index == 0,
    {
        LCD { content: String::new(), line: LineNumber::FirstLine, index: 0 }
    }

    /// Bytes that send command `cmd` to the display.
    pub fn command_frame(cmd: u8) -> (r: [u8; 4])
        ensures
            r@ == lcd_frame_spec(cmd, false),
    {
        lcd_frame(cmd, false)
    }

    /// Bytes that send character or data byte `data` to the display.
    pub fn data_frame(data: u8) -> (r: [u8; 4])
        ensures
            r@ == lcd_frame_spec(data, true),
    {
        lcd_frame(data, true)
    }

    /// Moves the cursor to `index` on `line` (clamped to the last column)
    /// and returns the set-address command to send.
    pub fn set_cursor(&mut self, line: LineNumber, index: u8) -> (r: u8)
        ensures
            final(self).line == line,
            final(self).index == if index > LCD_LAST_COLUMN {
                LCD_LAST_COLUMN
            } else {
                index
            },
            final(self).content@ == old(self).content@,
            r == LCD_SET_ADDRESS + line.spec_offset() + final(self).index,
    {
        let column = if index > LCD_LAST_COLUMN {
            LCD_LAST_COLUMN
        } else {
            index
        };
        self.line = line;
        self.index = column;
        LCD_SET_ADDRESS + line.offset() + column
    }
}

} // verus!
