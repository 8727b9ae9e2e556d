//! The log: time stamps, file names, the cache; and what a board keeps.

use rriv_datalogger::board::{
    usb_send_record, usb_send_step, UsbSendState, UsbSendStep, UsbWrite,
    add_hardware_error, check_one_wire_crc, drain_hardware_errors, hardware_error_text,
    sensor_settings_of, serial_number_is_unset, HardwareError,
};
use rriv_datalogger::command_registry::CommandType;
use rriv_datalogger::storage::{
    log_file_name, storage_fault, timestamp_from_calendar, CalendarTime, FileTimestamp, RrivTimeSource,
    StorageCache,
};

fn stamp(year: u8, month: u8, day: u8, hours: u8, minutes: u8, seconds: u8) -> FileTimestamp {
    FileTimestamp {
        year_since_1970: year,
        zero_indexed_month: month,
        zero_indexed_day: day,
        hours,
        minutes,
        seconds,
    }
}

#[test]
fn files_are_stamped_with_the_time_of_the_cycle() {
    let mut source = RrivTimeSource::new();
    assert_eq!(source.get_timestamp(), stamp(0, 0, 0, 0, 0, 0));
    source.set_timestamp(1_700_000_000);
    assert_eq!(source.get_timestamp(), stamp(53, 10, 13, 22, 13, 20));
    source.set_timestamp(951_782_399);
    assert_eq!(source.get_timestamp(), stamp(30, 1, 27, 23, 59, 59));
    source.set_timestamp(951_782_400);
    assert_eq!(source.get_timestamp(), stamp(30, 1, 28, 0, 0, 0));
    source.set_timestamp(-1);
    assert_eq!(source.get_timestamp(), stamp(0, 0, 0, 0, 0, 0));
    source.set_timestamp(8_100_000_000);
    assert_eq!(source.get_timestamp(), stamp(0, 0, 0, 0, 0, 0));
    source.set_timestamp(i64::MAX);
    assert_eq!(source.get_timestamp(), stamp(0, 0, 0, 0, 0, 0));
}

#[test]
fn moments_outside_of_the_file_system_are_stamped_as_its_start() {
    let moment = CalendarTime { year: 2225, month: 12, day: 31, hour: 23, minute: 59, second: 59 };
    assert_eq!(timestamp_from_calendar(Some(moment)), stamp(255, 11, 30, 23, 59, 59));
    let first = CalendarTime { year: 1970, month: 1, day: 1, hour: 0, minute: 0, second: 0 };
    assert_eq!(timestamp_from_calendar(Some(first)), stamp(0, 0, 0, 0, 0, 0));
    for odd in [
        CalendarTime { year: 2226, ..moment },
        CalendarTime { year: 1969, ..moment },
        CalendarTime { month: 0, ..moment },
        CalendarTime { month: 13, ..moment },
        CalendarTime { day: 0, ..moment },
        CalendarTime { day: 32, ..moment },
        CalendarTime { hour: 24, ..moment },
        CalendarTime { minute: 60, ..moment },
        CalendarTime { second: 60, ..moment },
    ] {
        assert_eq!(timestamp_from_calendar(Some(odd)), stamp(0, 0, 0, 0, 0, 0));
    }
    assert_eq!(timestamp_from_calendar(None), stamp(0, 0, 0, 0, 0, 0));
}

#[test]
fn log_files_are_named_by_their_second() {
    assert_eq!(&log_file_name(1234), b"0001234.csv");
    assert_eq!(&log_file_name(0), b"0000000.csv");
    assert_eq!(&log_file_name(9_999_999), b"9999999.csv");
    assert_eq!(&log_file_name(12_345_678), b"9961550.csv");
    assert_eq!(&log_file_name(10_000_000), b"9999872.csv");
    assert_eq!(&log_file_name(-5), b"00000-5.csv");
    assert_eq!(&log_file_name(-999_999), b"-999999.csv");
    assert_eq!(log_file_name(-1_000_000), [0xFF; 11]);
    assert_eq!(log_file_name(i64::MIN), [0xFF; 11]);
}

#[test]
fn the_cache_hands_bytes_on_in_order() {
    let mut cache = StorageCache::new();
    let first: Vec<u8> = (0..60).collect();
    let second: Vec<u8> = (60..120).collect();
    assert_eq!(cache.write(&first), vec![]);
    assert_eq!(cache.next_position, 60);
    assert_eq!(cache.write(&second), first);
    assert_eq!(cache.next_position, 60);
    assert_eq!(cache.cache[..60], second[..]);
    let long: Vec<u8> = (0..250).map(|i| i as u8).collect();
    let mut expected = second.clone();
    expected.extend_from_slice(&long[..200]);
    assert_eq!(cache.write(&long), expected);
    assert_eq!(cache.next_position, 50);
    assert_eq!(cache.write(&long[..50]), vec![]);
    assert_eq!(cache.next_position, 100);
    assert_eq!(cache.write(&[]), vec![]);
    let mut all = long[200..].to_vec();
    all.extend_from_slice(&long[..50]);
    assert_eq!(cache.write(&[7]), all);
    assert_eq!(cache.flush(), vec![7]);
    assert_eq!(cache.flush(), vec![]);
    assert_eq!(cache.next_position, 0);
}

#[test]
fn errors_are_kept_until_the_record_is_full() {
    let mut errors = [HardwareError::NoError; 5];
    add_hardware_error(&mut errors, HardwareError::StorageMissing);
    add_hardware_error(&mut errors, HardwareError::StorageFull);
    assert_eq!(
        errors,
        [
            HardwareError::StorageMissing,
            HardwareError::StorageFull,
            HardwareError::NoError,
            HardwareError::NoError,
            HardwareError::NoError
        ]
    );
    errors[0] = HardwareError::NoError;
    add_hardware_error(&mut errors, HardwareError::StorageOther);
    assert_eq!(errors[0], HardwareError::StorageOther);
    for _ in 0..5 {
        add_hardware_error(&mut errors, HardwareError::StorageFull);
    }
    let full = errors;
    add_hardware_error(&mut errors, HardwareError::StorageMissing);
    assert_eq!(errors, full);
    assert_eq!(errors[4], HardwareError::StorageFull);
    assert_eq!(hardware_error_text(HardwareError::NoError), "None");
    assert_eq!(hardware_error_text(HardwareError::StorageFull), "SD Card Full");
    assert_eq!(hardware_error_text(HardwareError::StorageMissing), "SD Card Missing");
    assert_eq!(hardware_error_text(HardwareError::StorageOther), "SD Card Error");
}

#[test]
fn what_was_read_from_the_one_wire_bus_is_checked() {
    assert_eq!(check_one_wire_crc(&[99, 1, 75, 70, 127, 255, 13, 16, 21]), Ok(()));
    assert_eq!(check_one_wire_crc(&[99, 1, 75, 70, 127, 255, 13, 16, 22]), Err(()));
    assert_eq!(check_one_wire_crc(&[0xC0, 0x03, 0x4B, 0x46, 0x7F, 0xFF, 0x0C, 0x10, 84]), Ok(()));
    assert_eq!(check_one_wire_crc(&[1]), Err(()));
    assert_eq!(check_one_wire_crc(&[]), Ok(()));
}

#[test]
fn commands_are_named_by_three_words() {
    assert_eq!(CommandType::from(("datalogger", "set", "")), CommandType::DataloggerSet);
    assert_eq!(CommandType::from(("datalogger", "set", "mode")), CommandType::DataloggerSetMode);
    assert_eq!(CommandType::from(("sensor", "calibrate", "fit")), CommandType::SensorCalibrateFit);
    assert_eq!(CommandType::from(("sensor", "calibrate", "clear")), CommandType::SensorCalibrateClear);
    assert_eq!(CommandType::from(("board", "set", "")), CommandType::BoardRtcSet);
    assert_eq!(CommandType::from(("board_signal_3v3", "boost", "low")), CommandType::BoardSignal3v3BoostLow);
    assert_eq!(CommandType::from(("serial", "send", "")), CommandType::BoardSerialSend);
    assert_eq!(CommandType::from(("device", "set", "")), CommandType::DeviceSetSerialNumber);
    assert_eq!(CommandType::from(("device", "get", "")), CommandType::DeviceGet);
    assert_eq!(CommandType::from(("device", "get", "x")), CommandType::Unknown);
    assert_eq!(CommandType::from(("Sensor", "set", "")), CommandType::Unknown);
    assert_eq!(CommandType::from(("", "", "")), CommandType::Unknown);
    assert_eq!(CommandType::from(("sensor", "calibrate", "")), CommandType::Unknown);
}

#[test]
fn errors_leave_the_record_when_they_are_reported() {
    let mut errors = [HardwareError::NoError; 5];
    add_hardware_error(&mut errors, HardwareError::StorageFull);
    add_hardware_error(&mut errors, HardwareError::StorageOther);
    let raised = drain_hardware_errors(&mut errors);
    assert_eq!(raised[..3], [HardwareError::StorageFull, HardwareError::StorageOther, HardwareError::NoError]);
    assert_eq!(errors, [HardwareError::NoError; 5]);
    assert_eq!(drain_hardware_errors(&mut errors), [HardwareError::NoError; 5]);
}

#[test]
fn what_the_store_of_a_board_holds() {
    assert!(serial_number_is_unset(&[0xFF; 5]));
    assert!(!serial_number_is_unset(&[0xFF, 0xFF, 0xFF, 0xFF, 0xFE]));
    assert!(!serial_number_is_unset(b"R0042"));
    let mut stored = [0u8; 768];
    for (i, byte) in stored.iter_mut().enumerate() {
        *byte = (i / 64) as u8 * 16 + (i % 16) as u8;
    }
    let slot = sensor_settings_of(&stored, 11);
    assert_eq!(slot[..3], [0xB0, 0xB1, 0xB2]);
    assert_eq!(slot[63], 0xBF);
    assert_eq!(sensor_settings_of(&stored, 0)[17], 1);
}

#[test]
fn a_medium_without_room_is_full() {
    assert_eq!(storage_fault(0, 0, 8_000_000_000), HardwareError::NoError);
    assert_eq!(storage_fault(511, 7_900_000_000, 8_000_000_000), HardwareError::NoError);
    assert_eq!(storage_fault(512, 0, 8_000_000_000), HardwareError::StorageFull);
    assert_eq!(storage_fault(3, 7_900_000_001, 8_000_000_000), HardwareError::StorageFull);
    assert_eq!(storage_fault(0, 0, 99_999_999), HardwareError::StorageFull);
    assert_eq!(storage_fault(0, 0, 100_000_000), HardwareError::NoError);
    assert_eq!(storage_fault(0, u64::MAX, u64::MAX), HardwareError::StorageFull);
}

#[test]
fn a_send_on_the_command_line_ends() {
    let mut state = UsbSendState::new();
    assert_eq!(usb_send_step(&state, 0), UsbSendStep::Done);
    assert_eq!(usb_send_step(&state, 10), UsbSendStep::Write { from: 0 });
    assert!(!usb_send_record(&mut state, 10, UsbWrite::Written(4)));
    assert_eq!(usb_send_step(&state, 10), UsbSendStep::Write { from: 4 });
    assert!(usb_send_record(&mut state, 10, UsbWrite::WouldBlock));
    assert!(usb_send_record(&mut state, 10, UsbWrite::Failed));
    assert!(usb_send_record(&mut state, 10, UsbWrite::Written(0)));
    assert_eq!(state, UsbSendState { written: 4, waits: 3 });
    assert!(!usb_send_record(&mut state, 10, UsbWrite::Written(usize::MAX)));
    assert_eq!(state, UsbSendState { written: 10, waits: 3 });
    assert_eq!(usb_send_step(&state, 10), UsbSendStep::Done);
    let mut blocked = UsbSendState::new();
    let mut writes = 0;
    while let UsbSendStep::Write { from } = usb_send_step(&blocked, 5) {
        assert_eq!(from, 0);
        assert!(usb_send_record(&mut blocked, 5, UsbWrite::WouldBlock));
        writes += 1;
    }
    assert_eq!(writes, 101);
    assert_eq!(usb_send_step(&blocked, 5), UsbSendStep::GiveUp);
}
