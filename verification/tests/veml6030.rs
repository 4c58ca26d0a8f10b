use hello_i2c::protocols::mock::{ScriptItem, ScriptedI2c};
use hello_i2c::veml6030::{
    clip_u16, constants, create_mask, insert_u16, Address, Gain, IntegrationTime, Threshold,
    VEML6030Error, VEML6030,
};

#[test]
fn start_veml6030() {
    let address: u8 = Address::Default.into();
    let expectations = vec![
        ScriptItem::write_read(address, vec![constants::SETTING_REG], vec![0x00, 0x00]),
        ScriptItem::write(address, vec![constants::SETTING_REG, 0x00, 0x00]),
        ScriptItem::write_read(address, vec![constants::SETTING_REG], vec![0x00, 0x00]),
        ScriptItem::write(address, vec![constants::SETTING_REG, 0x18, 0x00]),
        ScriptItem::write_read(address, vec![constants::SETTING_REG], vec![0x18, 0x00]),
        ScriptItem::write(address, vec![constants::SETTING_REG, 0x1A, 0x00]),
    ];
    let i2c = ScriptedI2c::new(expectations);

    let _veml6030 = VEML6030::build(i2c, constants::DEFAULT).unwrap();
}

#[test]
fn create_mask_selects_field() {
    assert_eq!(create_mask(0, 1), 0x0001);
    assert_eq!(create_mask(11, 2), 0x1800);
    assert_eq!(create_mask(6, 4), 0x03C0);
    assert_eq!(create_mask(0, 16), 0xFFFF);
    assert_eq!(create_mask(15, 1), 0x8000);
}

#[test]
fn clip_and_insert_round_trip() {
    let state = insert_u16(0x0000, 11, 2, 3);
    assert_eq!(state, 0x1800);
    assert_eq!(clip_u16(state, 11, 2), 3);
    // Bits outside the field stay untouched.
    let state = insert_u16(0xFFFF, 6, 4, 0b1000);
    assert_eq!(clip_u16(state, 6, 4), 0b1000);
    assert_eq!(state & 0x003F, 0x003F);
    assert_eq!(state >> 10, 0x3F);
    // Only the low bits of the value are taken.
    assert_eq!(insert_u16(0, 0, 1, 0xFFFF), 1);
}

#[test]
fn gain_codes_round_trip() {
    for gain in [Gain::X1, Gain::X2, Gain::X1_8, Gain::X1_4] {
        assert_eq!(Gain::decode(gain.encode()).unwrap(), gain);
    }
    assert!(matches!(
        Gain::decode(4),
        Err(VEML6030Error::ConversionError)
    ));
}

#[test]
fn integration_time_codes_round_trip() {
    for time in [
        IntegrationTime::Ms25,
        IntegrationTime::Ms50,
        IntegrationTime::Ms100,
        IntegrationTime::Ms200,
        IntegrationTime::Ms400,
        IntegrationTime::Ms800,
    ] {
        assert_eq!(IntegrationTime::decode(time.encode()).unwrap(), time);
    }
    assert!(matches!(
        IntegrationTime::decode(0b0101),
        Err(VEML6030Error::ConversionError)
    ));
}

#[test]
fn get_gain_reads_setting_field() {
    let address: u8 = Address::Default.into();
    let expectations = vec![ScriptItem::write_read(
        address,
        vec![constants::SETTING_REG],
        vec![0x18, 0x00],
    )];
    let mut sensor = VEML6030::new(ScriptedI2c::new(expectations), address);
    assert_eq!(sensor.get_gain().unwrap(), Gain::X1_4);
}

#[test]
fn get_integration_time_rejects_undefined_code() {
    // The 4-bit field holds 0b0101, which no integration time defines.
    let address: u8 = Address::Default.into();
    let expectations = vec![ScriptItem::write_read(
        address,
        vec![constants::SETTING_REG],
        vec![0x01, 0x40],
    )];
    let mut sensor = VEML6030::new(ScriptedI2c::new(expectations), address);
    assert!(matches!(
        sensor.get_integration_time(),
        Err(VEML6030Error::ConversionError)
    ));
}

#[test]
fn threshold_window_round_trip() {
    let address: u8 = Address::Default.into();
    let expectations = vec![
        ScriptItem::write(address, vec![constants::H_THRESH_REG, 0x12, 0x34]),
        ScriptItem::write_read(address, vec![constants::H_THRESH_REG], vec![0x12, 0x34]),
    ];
    let mut sensor = VEML6030::new(ScriptedI2c::new(expectations), address);
    sensor.set_high_threshold_window(0x1234).unwrap();
    assert_eq!(sensor.get_high_threshold_window().unwrap(), 0x1234);
}

#[test]
fn threshold_exceeded_reads_interrupt_bits() {
    let address: u8 = Address::Default.into();
    let expectations = vec![
        ScriptItem::write_read(address, vec![constants::INTERRUPT_REG], vec![0x80, 0x00]),
        ScriptItem::write_read(address, vec![constants::INTERRUPT_REG], vec![0x80, 0x00]),
    ];
    let mut sensor = VEML6030::new(ScriptedI2c::new(expectations), address);
    assert_eq!(
        sensor.get_low_threshold_exceeded().unwrap(),
        Threshold::Exceeded
    );
    assert_eq!(
        sensor.get_high_threshold_exceeded().unwrap(),
        Threshold::NotExceeded
    );
}

#[test]
fn ambient_light_output_combines_big_endian() {
    let address: u8 = Address::Default.into();
    let expectations = vec![ScriptItem::write_read(
        address,
        vec![constants::AMBIENT_LIGHT_DATA_REG],
        vec![0x00, 0xFF],
    )];
    let mut sensor = VEML6030::new(ScriptedI2c::new(expectations), address);
    assert_eq!(sensor.get_ambient_light_output().unwrap(), 255);
}

#[test]
fn getter_fails_on_bus_error() {
    let address: u8 = Address::Default.into();
    let mut sensor = VEML6030::new(ScriptedI2c::new(vec![]), address);
    assert!(matches!(sensor.get_gain(), Err(VEML6030Error::IOError)));
}
