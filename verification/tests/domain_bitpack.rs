use thedes::domain::bitpack::{BitPack, read_packed, write_packed};

#[derive(Debug, Clone, Copy, PartialEq, Eq)]
pub enum Data {
    Foo,
    Bar,
    Baz,
    Y,
    X,
}

impl BitPack for Data {
    type BitVector = u16;
    const BIT_COUNT: u32 = 3;

    fn pack_spec(self) -> u16 {
        self.pack()
    }

    fn unpack_spec(bits: u16) -> Option<Self> {
        Self::unpack(bits)
    }

    fn pack(self) -> u16 {
        match self {
            Data::Foo => 0,
            Data::Bar => 1,
            Data::Baz => 2,
            Data::Y => 3,
            Data::X => 4,
        }
    }

    fn unpack(bits: u16) -> Option<Self> {
        match bits {
            0 => Some(Data::Foo),
            1 => Some(Data::Bar),
            2 => Some(Data::Baz),
            3 => Some(Data::Y),
            4 => Some(Data::X),
            _ => None,
        }
    }
}

#[test]
fn read_zeroed() {
    let buf = [0_u16; 4];
    for i in 0 .. 5 * 4 {
        assert_eq!(read_packed::<Data>(&buf, i), Ok(Data::Foo));
    }
}

#[test]
fn read_write() {
    let mut buf = [0_u16; 2];
    write_packed(&mut buf, 0, Data::X);
    write_packed(&mut buf, 1, Data::Y);
    write_packed(&mut buf, 2, Data::Bar);
    write_packed(&mut buf, 3, Data::Baz);
    write_packed(&mut buf, 4, Data::Baz);
    write_packed(&mut buf, 5, Data::Bar);
    write_packed(&mut buf, 6, Data::Y);
    write_packed(&mut buf, 7, Data::X);
    write_packed(&mut buf, 8, Data::X);
    write_packed(&mut buf, 9, Data::Baz);

    assert_eq!(read_packed(&buf, 0), Ok(Data::X));
    assert_eq!(read_packed(&buf, 1), Ok(Data::Y));
    assert_eq!(read_packed(&buf, 2), Ok(Data::Bar));
    assert_eq!(read_packed(&buf, 3), Ok(Data::Baz));
    assert_eq!(read_packed(&buf, 4), Ok(Data::Baz));
    assert_eq!(read_packed(&buf, 5), Ok(Data::Bar));
    assert_eq!(read_packed(&buf, 6), Ok(Data::Y));
    assert_eq!(read_packed(&buf, 7), Ok(Data::X));
    assert_eq!(read_packed(&buf, 8), Ok(Data::X));
    assert_eq!(read_packed(&buf, 9), Ok(Data::Baz));
}

#[test]
fn overwrite() {
    let mut buf = [0_u16; 2];
    write_packed(&mut buf, 7, Data::X);
    write_packed(&mut buf, 7, Data::Foo);
    assert_eq!(read_packed(&buf, 7), Ok(Data::Foo));
}

#[test]
fn read_reports_bits_of_no_value() {
    let mut buf = [0_u16; 1];
    buf[0] = 7;
    assert_eq!(read_packed::<Data>(&buf, 0), Err(7));
}
