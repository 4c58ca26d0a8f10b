use std::iter::zip;

use byteorder::{BigEndian, ByteOrder};

use hello_i2c::protocols::i2c::I2CWrapper;
use hello_i2c::protocols::mock::{ScriptItem, ScriptedI2c};

fn prepare_mock_device(expectations: Vec<ScriptItem>) -> I2CWrapper<ScriptedI2c> {
    let i2c = ScriptedI2c::new(expectations);
    I2CWrapper::new(i2c, 0x00)
}

#[test]
fn read_mock_i2c_register() {
    let address: u8 = 0x00;
    let register: u8 = 0u8;

    let mut mock_buffer = vec![0u8; 2];
    BigEndian::write_u16(&mut mock_buffer, 5);

    let expectations = vec![ScriptItem::write_read(
        address,
        vec![register],
        mock_buffer.clone(),
    )];

    let mut wrapper = prepare_mock_device(expectations);

    let result = wrapper.read_from_register(0u8, 2);

    // Check result
    let read_buffer = result.unwrap();

    // Check output
    for x in zip(read_buffer, mock_buffer) {
        assert_eq!(x.0, x.1)
    }
}

#[test]
fn write_mock_i2c_register() {
    let address: u8 = 0x00;
    let register: u8 = 0u8;

    let mut mock_buffer = vec![0u8; 2];
    BigEndian::write_u16(&mut mock_buffer, 5);

    let expectations = vec![ScriptItem::write(address, {
        let mut buffer = vec![register];
        buffer.extend(mock_buffer.iter());
        buffer
    })];

    let mut wrapper = prepare_mock_device(expectations);

    let result = wrapper.write_to_register(0u8, &mock_buffer);

    // Check result
    assert_eq!(result.unwrap(), ());
}

#[test]
fn read_rejects_wrong_register() {
    let expectations = vec![ScriptItem::write_read(0x00, vec![0x10], vec![0xAA])];
    let mut wrapper = prepare_mock_device(expectations);
    assert!(wrapper.read_from_register(0x11, 1).is_err());
}

#[test]
fn write_prepends_register_address() {
    // The transaction carries the register address followed by the payload;
    // a script expecting the bare payload does not match.
    let expectations = vec![ScriptItem::write(0x00, vec![0x20, 0x30])];
    let mut wrapper = prepare_mock_device(expectations);
    assert!(wrapper.write_to_register(0x20, &vec![0x30]).is_ok());

    let expectations = vec![ScriptItem::write(0x00, vec![0x30])];
    let mut wrapper = prepare_mock_device(expectations);
    assert!(wrapper.write_to_register(0x20, &vec![0x30]).is_err());
}

#[test]
fn scripted_transport_reports_exhaustion() {
    let mut i2c = ScriptedI2c::new(vec![]);
    assert!(i2c.is_exhausted());
    i2c = ScriptedI2c::new(vec![ScriptItem::write(0x00, vec![0x01])]);
    assert!(!i2c.is_exhausted());
}
