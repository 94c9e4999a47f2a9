use zapp::device::ids::{
    bootloader_device, friendly_name, identify_bootloader, identify_keyboard, is_moonlander_revb,
    keyboard_for_bootloader, target_name_for_pid, BootloaderKind, Keyboard, HALFKAY_PID, HALFKAY_VID,
    STM32_DFU_PID, STM32_VID, ZSA_VID,
};
use zapp::device::watcher::{found_status, WatchStatus};

#[test]
fn test_identify_bootloader() {
    assert_eq!(identify_bootloader(HALFKAY_VID, HALFKAY_PID), Some(BootloaderKind::Halfkay));
    assert_eq!(identify_bootloader(STM32_VID, STM32_DFU_PID), Some(BootloaderKind::Stm32Dfu));
    assert_eq!(identify_bootloader(ZSA_VID, 0x0791), Some(BootloaderKind::IgnitionStm32));
    assert_eq!(identify_bootloader(ZSA_VID, 0x1791), Some(BootloaderKind::IgnitionGd32));
    assert_eq!(identify_bootloader(ZSA_VID, 0x2003), Some(BootloaderKind::IgnitionStm32));
    // Unknown device
    assert_eq!(identify_bootloader(0x1234, 0x5678), None);
}

#[test]
fn test_keyboard_for_bootloader() {
    assert_eq!(keyboard_for_bootloader(HALFKAY_VID, HALFKAY_PID), Some(Keyboard::ErgodoxEz));
    assert_eq!(keyboard_for_bootloader(ZSA_VID, 0x0791), Some(Keyboard::Voyager));
    assert_eq!(keyboard_for_bootloader(ZSA_VID, 0x2003), Some(Keyboard::Moonlander));
    // Generic STM32 DFU — no specific keyboard
    assert_eq!(keyboard_for_bootloader(STM32_VID, STM32_DFU_PID), None);
}

#[test]
fn ignition_ergodox_range_is_stm32() {
    for pid in 0x2000..=0x2002u16 {
        assert_eq!(identify_bootloader(ZSA_VID, pid), Some(BootloaderKind::IgnitionStm32));
        assert_eq!(keyboard_for_bootloader(ZSA_VID, pid), Some(Keyboard::ErgodoxEz));
    }
    assert_eq!(identify_bootloader(ZSA_VID, 0x2004), None);
    assert_eq!(identify_bootloader(ZSA_VID, 0x1fff), None);
    // the ZSA product IDs mean nothing under another vendor
    assert_eq!(identify_bootloader(STM32_VID, 0x0791), None);
}

#[test]
fn friendly_names() {
    assert_eq!(friendly_name(HALFKAY_VID, HALFKAY_PID), "Ergodox EZ (HALFKAY)");
    assert_eq!(friendly_name(STM32_VID, STM32_DFU_PID), "Keyboard in Reset Mode (STM32 DFU)");
    assert_eq!(friendly_name(ZSA_VID, 0x1791), "Voyager (Ignition GD32)");
    assert_eq!(friendly_name(ZSA_VID, 0x2001), "Ergodox EZ Shine (Ignition)");
    assert_eq!(friendly_name(ZSA_VID, 0x2003), "Moonlander (Ignition)");
    assert_eq!(friendly_name(0x1234, 0x5678), "Unknown");
}

#[test]
fn unknown_name_iff_unknown_bootloader() {
    let pairs = [
        (HALFKAY_VID, HALFKAY_PID),
        (STM32_VID, STM32_DFU_PID),
        (ZSA_VID, 0x0791),
        (ZSA_VID, 0x2002),
        (ZSA_VID, 0x1969),
        (0x1234, 0x5678),
    ];
    for (vid, pid) in pairs {
        assert_eq!(identify_bootloader(vid, pid).is_none(), friendly_name(vid, pid) == "Unknown");
        if keyboard_for_bootloader(vid, pid).is_some() {
            assert!(identify_bootloader(vid, pid).is_some());
        }
    }
}

#[test]
fn target_names() {
    assert_eq!(target_name_for_pid(0x1307), "Ergodox EZ");
    assert_eq!(target_name_for_pid(0x2030), "Ergodox EZ Original");
    assert_eq!(target_name_for_pid(0x4975), "Ergodox EZ Shine");
    assert_eq!(target_name_for_pid(0x2010), "Ergodox EZ Glow");
    assert_eq!(target_name_for_pid(0xC6CF), "Planck EZ Glow");
    assert_eq!(target_name_for_pid(0x1972), "Moonlander MK1");
    assert_eq!(target_name_for_pid(0x1978), "Voyager");
    assert_eq!(target_name_for_pid(0x0791), "Voyager (STM32)");
    assert_eq!(target_name_for_pid(0xDF11), "STM32 DFU");
    assert_eq!(target_name_for_pid(0x0001), "Unknown");
}

#[test]
fn normal_mode_keyboards() {
    assert_eq!(identify_keyboard(ZSA_VID, 0x1969), Some(Keyboard::Moonlander));
    assert_eq!(identify_keyboard(ZSA_VID, 0x1977), Some(Keyboard::Voyager));
    assert_eq!(identify_keyboard(ZSA_VID, 0xC6CE), Some(Keyboard::PlanckEz));
    assert_eq!(identify_keyboard(ZSA_VID, 0x2020), Some(Keyboard::ErgodoxEz));
    assert_eq!(identify_keyboard(ZSA_VID, 0x0791), None);
    assert_eq!(identify_keyboard(0x1234, 0x1969), None);
    assert!(is_moonlander_revb(0x1972));
    assert!(!is_moonlander_revb(0x1969));
    assert_eq!(Keyboard::PlanckEz.name(), "Planck EZ");
    assert_eq!(Keyboard::Moonlander.name(), "Moonlander");
}

#[test]
fn bootloader_devices_and_status() {
    let dev = bootloader_device(ZSA_VID, 0x1791).unwrap();
    assert_eq!(dev.kind, BootloaderKind::IgnitionGd32);
    assert_eq!(dev.keyboard, Some(Keyboard::Voyager));
    assert_eq!((dev.vid, dev.pid), (ZSA_VID, 0x1791));
    assert!(bootloader_device(ZSA_VID, 0x1969).is_none());
    match found_status(&dev) {
        WatchStatus::Found { keyboard, kind, name } => {
            assert_eq!(keyboard, Some(Keyboard::Voyager));
            assert_eq!(kind, BootloaderKind::IgnitionGd32);
            assert_eq!(name, "Voyager (Ignition GD32)");
        }
        WatchStatus::Waiting => panic!("expected Found"),
    }
}
