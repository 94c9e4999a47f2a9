use zapp::device::ids::{bootloader_device, BootloaderDevice, HALFKAY_PID, HALFKAY_VID, STM32_DFU_PID, STM32_VID, ZSA_VID};
use zapp::firmware::{DfuImage, Firmware};
use zapp::flash::dfu::{
    dfu_command_payload, dfu_firmware_data, dfu_layout, dfu_plan, initial_step, parse_dfu_status, poll_delay,
    DfuAction, DfuStatus, InitialStep, PollUntil, BLOCK_SIZE, DFU_ERASE_SECTOR, DFU_SET_ADDRESS,
    IGNITION_START_ADDRESS, STM32_START_ADDRESS,
};
use zapp::flash::halfkay::{
    after_send, halfkay_plan, halfkay_reboot_packet, halfkay_sector_packet, retries_exhausted, HalfkayAction, SendStep,
    ERGODOX_MEM_SIZE, PACKET_RETRIES, RETRY_DELAY_MILLIS,
};
use zapp::flash::{flash_method_for, progress_percent, validate_firmware_compatibility, FlashMethod, FlashProgress};
use zapp::ZappError;

fn device(vid: u16, pid: u16) -> BootloaderDevice {
    bootloader_device(vid, pid).unwrap()
}

fn incompatible(r: Result<(), ZappError>) -> (String, String) {
    match r {
        Err(ZappError::IncompatibleFirmware { firmware_desc, device_desc }) => (firmware_desc, device_desc),
        other => panic!("expected IncompatibleFirmware, got {:?}", other),
    }
}

#[test]
fn stm32_firmware_is_refused_by_ignition() {
    let fw = Firmware::DfuBinary { data: vec![1, 2, 3], vid: STM32_VID, pid: STM32_DFU_PID };
    let (f, d) = incompatible(validate_firmware_compatibility(&device(ZSA_VID, 0x0791), &fw));
    assert_eq!(f, "STM32 DFU firmware (STM32 DFU)");
    assert_eq!(d, "Voyager (Ignition STM32)");
    assert!(validate_firmware_compatibility(&device(STM32_VID, STM32_DFU_PID), &fw).is_ok());
}

#[test]
fn ignition_firmware_is_refused_by_stm32() {
    let fw = Firmware::DfuBinary { data: vec![1], vid: ZSA_VID, pid: 0x0791 };
    let (f, d) = incompatible(validate_firmware_compatibility(&device(STM32_VID, STM32_DFU_PID), &fw));
    assert_eq!(f, "Voyager (STM32) firmware (Ignition)");
    assert_eq!(d, "Keyboard in Reset Mode (STM32 DFU)");
    assert!(validate_firmware_compatibility(&device(ZSA_VID, 0x1791), &fw).is_ok());
}

#[test]
fn moonlander_revisions() {
    let rev_b = Firmware::DfuBinary { data: vec![], vid: ZSA_VID, pid: 0x1972 };
    let rev_a = Firmware::DfuBinary { data: vec![], vid: ZSA_VID, pid: 0x1969 };
    let (f, _) = incompatible(validate_firmware_compatibility(&device(STM32_VID, STM32_DFU_PID), &rev_b));
    assert_eq!(f, "Moonlander rev B (Ignition) firmware");
    let (f, d) = incompatible(validate_firmware_compatibility(&device(ZSA_VID, 0x2003), &rev_a));
    assert_eq!(f, "Moonlander rev A (STM32 DFU) firmware");
    assert_eq!(d, "Moonlander (Ignition)");
    assert!(validate_firmware_compatibility(&device(ZSA_VID, 0x2003), &rev_b).is_ok());
    assert!(validate_firmware_compatibility(&device(STM32_VID, STM32_DFU_PID), &rev_a).is_ok());
}

#[test]
fn dual_images_need_a_matching_pid() {
    let fw = Firmware::IgnitionDual {
        primary: DfuImage { data: vec![1; 4], vid: ZSA_VID, pid: 0x0791 },
        alternate: DfuImage { data: vec![2; 8], vid: ZSA_VID, pid: 0x1791 },
    };
    assert!(validate_firmware_compatibility(&device(ZSA_VID, 0x1791), &fw).is_ok());
    let (f, d) = incompatible(validate_firmware_compatibility(&device(ZSA_VID, 0x2003), &fw));
    assert_eq!(f, "dual-image firmware (Voyager (STM32) + Voyager (GD32))");
    assert_eq!(d, "Moonlander (Ignition)");
    // the accepted device gets the image built for its PID
    assert_eq!(dfu_firmware_data(&fw, 0x1791).unwrap(), &vec![2; 8]);
    assert_eq!(dfu_firmware_data(&fw, 0x0791).unwrap(), &vec![1; 4]);
    // an unmatched PID falls back to the primary image
    assert_eq!(dfu_firmware_data(&fw, 0x2003).unwrap(), &vec![1; 4]);
}

#[test]
fn intel_hex_only_for_halfkay() {
    let fw = Firmware::IntelHex { data: vec![0; 3] };
    assert!(validate_firmware_compatibility(&device(HALFKAY_VID, HALFKAY_PID), &fw).is_ok());
    let (f, _) = incompatible(validate_firmware_compatibility(&device(ZSA_VID, 0x0791), &fw));
    assert_eq!(f, "Intel HEX firmware (HALFKAY)");
    assert_eq!(flash_method_for(&device(HALFKAY_VID, HALFKAY_PID), &fw).unwrap(), FlashMethod::Halfkay);
    let bin = Firmware::DfuBinary { data: vec![], vid: ZSA_VID, pid: 0x0791 };
    assert_eq!(flash_method_for(&device(ZSA_VID, 0x2002), &bin).unwrap(), FlashMethod::Dfu { ignition: true });
    match dfu_firmware_data(&fw, 0) {
        Err(ZappError::InvalidFirmware(m)) => assert_eq!(m, "cannot flash Intel HEX via DFU; expected a .bin file"),
        other => panic!("unexpected {:?}", other),
    }
}

#[test]
fn dfu_layouts() {
    let l = dfu_layout(4096, true).unwrap();
    assert_eq!(l.start_address, IGNITION_START_ADDRESS);
    assert_eq!(l.end_address, IGNITION_START_ADDRESS + 4096 + 2048);
    assert_eq!(l.erase_size, 6144);
    assert_eq!(l.total_progress, 10240);
    let l = dfu_layout(0x3F800, false).unwrap();
    assert_eq!(l.end_address, 0x0804_0000);
    match dfu_layout(0x3F801, false) {
        Err(ZappError::InvalidFirmware(m)) => assert_eq!(m, "firmware too large: 260097 bytes exceeds flash capacity"),
        other => panic!("unexpected {:?}", other),
    }
}

#[test]
fn dfu_plan_steps() {
    let fw = Firmware::DfuBinary { data: vec![7; 3000], vid: STM32_VID, pid: STM32_DFU_PID };
    let steps = dfu_plan(&fw, STM32_DFU_PID, false).unwrap();
    let s = STM32_START_ADDRESS;
    // erase size 5048: three sectors
    let expected = vec![
        DfuAction::Command { command: DFU_ERASE_SECTOR, address: s },
        DfuAction::Report(FlashProgress::Erasing { bytes_erased: 2048, total_bytes: 8048 }),
        DfuAction::Command { command: DFU_ERASE_SECTOR, address: s + 2048 },
        DfuAction::Report(FlashProgress::Erasing { bytes_erased: 4096, total_bytes: 8048 }),
        DfuAction::Command { command: DFU_ERASE_SECTOR, address: s + 4096 },
        DfuAction::Report(FlashProgress::Erasing { bytes_erased: 5048, total_bytes: 8048 }),
        DfuAction::Command { command: DFU_SET_ADDRESS, address: s },
        DfuAction::Download { offset: 0, length: BLOCK_SIZE },
        DfuAction::Report(FlashProgress::Writing { bytes_written: 5048 + 2048, total_bytes: 8048 }),
        DfuAction::Command { command: DFU_SET_ADDRESS, address: s + 2048 },
        DfuAction::Download { offset: 2048, length: 952 },
        DfuAction::Report(FlashProgress::Writing { bytes_written: 8048, total_bytes: 8048 }),
        DfuAction::Report(FlashProgress::Resetting),
        DfuAction::Pause { millis: 1000 },
        DfuAction::Command { command: DFU_SET_ADDRESS, address: s },
        DfuAction::Reboot,
        DfuAction::Report(FlashProgress::Complete),
    ];
    assert_eq!(steps, expected);
    // the downloads cover the image in order
    let mut pos = 0;
    for st in &steps {
        if let DfuAction::Download { offset, length } = st {
            assert_eq!(*offset, pos);
            pos += length;
        }
    }
    assert_eq!(pos, 3000);
}

#[test]
fn dfu_commands_and_status() {
    assert_eq!(dfu_command_payload(DFU_SET_ADDRESS, 0x0800_2000), vec![0x21, 0x00, 0x20, 0x00, 0x08]);
    assert_eq!(dfu_command_payload(DFU_ERASE_SECTOR, 0x0804_1800), vec![0x41, 0x00, 0x18, 0x04, 0x08]);
    assert_eq!(dfu_command_payload(DFU_ERASE_SECTOR, 0), vec![0x41]);
    assert_eq!(dfu_command_payload(DFU_SET_ADDRESS, 0), vec![0x21, 0, 0, 0, 0]);
    let st = parse_dfu_status(&[0x00, 0x34, 0x12, 0x01, 0x04, 0x00]).unwrap();
    assert_eq!(st, DfuStatus { b_status: 0, bw_poll_timeout: 0x011234, b_state: 4 });
    match parse_dfu_status(&[1, 2, 3]) {
        Err(ZappError::Dfu(m)) => assert_eq!(m, "GETSTATUS returned fewer than 6 bytes"),
        other => panic!("unexpected {:?}", other),
    }
    assert_eq!(poll_delay(PollUntil::NotBusy, &st), Some(0x011234));
    let quick = DfuStatus { b_status: 0, bw_poll_timeout: 5, b_state: 4 };
    assert_eq!(poll_delay(PollUntil::NotBusy, &quick), Some(100));
    assert_eq!(poll_delay(PollUntil::Idle, &quick), Some(100));
    let idle = DfuStatus { b_status: 0, bw_poll_timeout: 5, b_state: 5 };
    assert_eq!(poll_delay(PollUntil::Idle, &idle), None);
    assert_eq!(poll_delay(PollUntil::NotBusy, &idle), None);
    let manifest = DfuStatus { b_status: 0, bw_poll_timeout: 0, b_state: 7 };
    assert_eq!(poll_delay(PollUntil::Manifest, &manifest), None);
    assert_eq!(poll_delay(PollUntil::Manifest, &idle), Some(100));
}

#[test]
fn initial_status_decisions() {
    let ok = DfuStatus { b_status: 0, bw_poll_timeout: 0, b_state: 2 };
    let err = DfuStatus { b_status: 0x0A, bw_poll_timeout: 0, b_state: 10 };
    assert!(matches!(initial_step(&ok, false), InitialStep::Proceed));
    assert!(matches!(initial_step(&ok, true), InitialStep::Proceed));
    assert!(matches!(initial_step(&err, false), InitialStep::ClearStatus));
    match initial_step(&err, true) {
        InitialStep::Fail(ZappError::Dfu(m)) => {
            assert_eq!(m, "failed to clear error status — try unplugging and replugging the device")
        }
        other => panic!("unexpected {:?}", other),
    }
}

#[test]
fn halfkay_packets_and_plan() {
    let data: Vec<u8> = (0..200u32).map(|i| i as u8).collect();
    let p0 = halfkay_sector_packet(&data, 0);
    assert_eq!(p0.len(), 131);
    assert_eq!(&p0[..3], &[0, 0, 0]);
    assert_eq!(&p0[3..], &data[..128]);
    let p1 = halfkay_sector_packet(&data, 128);
    assert_eq!(&p1[..3], &[0, 128, 0]);
    assert_eq!(&p1[3..75], &data[128..200]);
    assert!(p1[75..].iter().all(|&b| b == 0xFF));
    let p = halfkay_sector_packet(&data, 0x7D80);
    assert_eq!(&p[..3], &[0, 0x80, 0x7D]);
    let reboot = halfkay_reboot_packet();
    assert_eq!(&reboot[..3], &[0, 0xFF, 0xFF]);
    assert!(reboot[3..].iter().all(|&b| b == 0));

    let fw = Firmware::IntelHex { data: data.clone() };
    let steps = halfkay_plan(&fw).unwrap();
    assert_eq!(steps.len(), 3 * (ERGODOX_MEM_SIZE / 128) + 4);
    match (&steps[0], &steps[1], &steps[2]) {
        (HalfkayAction::Send { packet, quiet }, HalfkayAction::Pause { millis }, HalfkayAction::Report(r)) => {
            assert_eq!(packet, &p0);
            assert!(!quiet);
            assert_eq!(*millis, 2000);
            assert_eq!(*r, FlashProgress::Writing { bytes_written: 128, total_bytes: ERGODOX_MEM_SIZE });
        }
        _ => panic!("unexpected first steps"),
    }
    assert!(matches!(steps[4], HalfkayAction::Pause { millis: 10 }));
    match &steps[steps.len() - 2] {
        HalfkayAction::Send { packet, quiet } => {
            assert_eq!(packet, &reboot);
            assert!(*quiet);
        }
        _ => panic!("expected the reboot report"),
    }
    assert!(matches!(steps[steps.len() - 1], HalfkayAction::Report(FlashProgress::Complete)));
    let bin = Firmware::DfuBinary { data: vec![], vid: 1, pid: 2 };
    match halfkay_plan(&bin) {
        Err(ZappError::InvalidFirmware(m)) => assert_eq!(m, "HALFKAY requires Intel HEX firmware (.hex file)"),
        other => panic!("unexpected {:?}", other.map(|s| s.len())),
    }
    assert!(retries_exhausted(true).is_ok());
    match retries_exhausted(false) {
        Err(ZappError::Dfu(m)) => assert_eq!(m, "failed to send HID packet after 5 retries"),
        other => panic!("unexpected {:?}", other),
    }
}

#[test]
fn progress_percentages() {
    assert_eq!(progress_percent(5048, 8048), 62);
    assert_eq!(progress_percent(8048, 8048), 100);
    assert_eq!(progress_percent(0, 1), 0);
}

#[test]
fn sending_a_report_is_retried() {
    assert_eq!(PACKET_RETRIES, 5);
    assert_eq!(RETRY_DELAY_MILLIS, 500);
    for attempt in 0..PACKET_RETRIES {
        assert!(matches!(after_send(true, attempt, false), SendStep::Sent));
        assert!(matches!(after_send(true, attempt, true), SendStep::Sent));
    }
    for attempt in 0..PACKET_RETRIES - 1 {
        assert!(matches!(after_send(false, attempt, false), SendStep::Retry { delay_millis: 500 }));
    }
    match after_send(false, PACKET_RETRIES - 1, false) {
        SendStep::GiveUp { delay_millis: 500, result: Err(ZappError::Dfu(m)) } => {
            assert_eq!(m, "failed to send HID packet after 5 retries")
        }
        other => panic!("unexpected {:?}", other),
    }
    assert!(matches!(after_send(false, PACKET_RETRIES - 1, true), SendStep::GiveUp { delay_millis: 500, result: Ok(()) }));
}
