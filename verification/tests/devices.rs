//! Device detection.

use aicam::devices::{
    capture_path, detect_audio, detect_camera, detect_hailo, device_name_from_sysfs,
    first_video_device, parse_card, parse_cards, AudioDevice,
};

#[test]
fn test_detect_camera_returns_option() {
    let entries = vec!["sda".to_string(), "null".to_string()];
    assert_eq!(first_video_device(&entries), None);
    let entries = vec![
        "video2".to_string(),
        "video0".to_string(),
        "sda".to_string(),
    ];
    assert_eq!(first_video_device(&entries), Some("/dev/video0".to_string()));
}

#[test]
fn test_detect_audio_returns_option() {
    assert_eq!(detect_audio(&Vec::new(), &Vec::new()), None);
}

#[test]
fn test_device_name_from_sysfs_missing() {
    let file = device_name_from_sysfs("/dev/video999").unwrap();
    assert_eq!(file, "/sys/class/video4linux/video999/name");
    assert!(!std::path::Path::new(&file).exists());
    assert!(device_name_from_sysfs("video999").is_none());
}

#[test]
fn cameras_are_named_after_what_the_system_says() {
    let c = detect_camera("/dev/video0".to_string(), Some("  HD Pro Webcam \n"));
    assert_eq!(c.path, "/dev/video0");
    assert_eq!(c.name, "HD Pro Webcam");
    let c = detect_camera("/dev/video0".to_string(), None);
    assert_eq!(c.name, "/dev/video0");
}

#[test]
fn the_first_card_that_captures_is_the_microphone() {
    let cards = parse_cards(
        " 0 [vc4hdmi        ]: vc4-hdmi - vc4-hdmi\n                      vc4-hdmi\n 1 [Device         ]: USB-Audio - USB PnP Sound Device\n                      C-Media\n",
    );
    assert_eq!(cards.len(), 2);
    assert_eq!(
        cards[0],
        AudioDevice {
            name: "vc4hdmi".to_string(),
            card_id: "0".to_string()
        }
    );
    assert_eq!(capture_path(&cards[1]), "/proc/asound/card1/pcm0c");
    assert_eq!(detect_audio(&cards, &vec![false, true]), Some(1));
    assert_eq!(detect_audio(&cards, &vec![true, true]), Some(0));
    assert_eq!(detect_audio(&cards, &vec![false, false]), None);
}

#[test]
fn lines_without_a_card_are_skipped() {
    assert_eq!(parse_card("--- no soundcards ---"), None);
    assert_eq!(parse_card("0 no brackets"), None);
    assert_eq!(parse_card("0 ]Device["), None);
    assert_eq!(parse_card(""), None);
    assert_eq!(
        parse_card("3 [ USB ]: x").map(|c| (c.card_id, c.name)),
        Some(("3".to_string(), "USB".to_string()))
    );
}

#[test]
fn the_accelerator_needs_plugin_and_device_file() {
    let none: Vec<String> = vec!["video0".to_string()];
    let some: Vec<String> = vec!["video0".to_string(), "hailo0".to_string()];
    assert!(!detect_hailo(false, &some));
    assert!(detect_hailo(true, &some));
    assert!(!detect_hailo(true, &none));
}
