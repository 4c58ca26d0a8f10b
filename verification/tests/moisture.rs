use hello_i2c::moisture::{constants, Address, Led, Moisture};
use hello_i2c::protocols::mock::{ScriptItem, ScriptedI2c};

#[test]
fn read_moisture_value() {
    let address: u8 = Address::Default.into();
    let expectations = vec![ScriptItem::write_read(
        address,
        vec![constants::COMMAND_GET_VALUE],
        vec![0x00, 0x00],
    )];
    let i2c = ScriptedI2c::new(expectations);

    let mut moisture_sensor = Moisture::build(i2c, constants::DEFAULT);
    let moisture = moisture_sensor.get_moisture_level().unwrap();

    assert_eq!(moisture, 0)
}

#[test]
fn set_led_on_and_off() {
    let address: u8 = Address::Default.into();
    let expectations = vec![
        ScriptItem::write(address, vec![0x00]),
        ScriptItem::write(address, vec![0x01]),
    ];
    let i2c = ScriptedI2c::new(expectations);

    let mut moisture_sensor = Moisture::build(i2c, constants::DEFAULT);
    moisture_sensor.set_led(Led::Off).unwrap();
    moisture_sensor.set_led(Led::On).unwrap();
}

#[test]
fn read_error_status() {
    let address: u8 = Address::Default.into();
    let expectations = vec![
        ScriptItem::write_read(address, vec![constants::SENSOR_STATUS], vec![0x01]),
        ScriptItem::write(address, vec![0x01]),
    ];
    let i2c = ScriptedI2c::new(expectations);

    let mut moisture_sensor = Moisture::build(i2c, constants::DEFAULT);
    let error_status: u8 = moisture_sensor.get_error_status().unwrap().into();

    assert_eq!(error_status, 1);
}

#[test]
fn change_i2c_address() {
    let address: u8 = Address::Default.into();
    let expectations = vec![ScriptItem::write(
        address,
        vec![constants::COMMAND_CHANGE_ADDRESS, 0x50],
    )];
    let i2c = ScriptedI2c::new(expectations);

    let mut moisture_sensor = Moisture::build(i2c, constants::DEFAULT);
    moisture_sensor.set_address(0x50).unwrap();
}

#[test]
fn moisture_level_combines_big_endian() {
    let address: u8 = Address::Default.into();
    let expectations = vec![ScriptItem::write_read(
        address,
        vec![constants::COMMAND_GET_VALUE],
        vec![0x01, 0x2C],
    )];
    let mut moisture_sensor = Moisture::build(ScriptedI2c::new(expectations), constants::DEFAULT);
    assert_eq!(moisture_sensor.get_moisture_level().unwrap(), 300);
}

#[test]
fn moisture_error_on_bus_failure() {
    let address: u8 = Address::Default.into();
    let mut moisture_sensor = Moisture::build(ScriptedI2c::new(vec![]), address);
    assert!(moisture_sensor.get_moisture_level().is_err());
}
