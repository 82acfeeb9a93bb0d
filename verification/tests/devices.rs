use openads::camera::FrameBuff;
use openads::info::{CameraInfo, ConnectionType};
use openads::scan::{IdInformation, UsbLinkInfo};

#[test]
fn usb_link_reports_its_ids_as_text() {
    let link = UsbLinkInfo::new(0x046d, 0x0825);
    assert_eq!(link.vendor_id, 0x046d);
    assert_eq!(link.product_id, 0x0825);
    assert_eq!(link.g_vendor_id(), "1133");
    assert_eq!(link.g_product_id(), "2085");
    assert_eq!(link.g_name(), "");
}

#[test]
fn usb_links_compare_by_ids() {
    assert!(UsbLinkInfo::new(1, 2) == UsbLinkInfo::new(1, 2));
    assert!(UsbLinkInfo::new(1, 2) != UsbLinkInfo::new(2, 1));
}

fn sample_info() -> CameraInfo {
    CameraInfo::new(
        &"Front door".to_string(),
        &"10.0.0.7".to_string(),
        ConnectionType::RTSP,
        554,
        &"1133".to_string(),
        &"2085".to_string(),
        "cam-1".to_string(),
    )
}

#[test]
fn camera_info_keeps_what_it_was_made_with() {
    let info = sample_info();
    assert_eq!(info.g_id(), "cam-1");
    assert_eq!(info.g_name(), "Front door");
    assert_eq!(info.g_vendor_id(), "1133");
    assert_eq!(info.g_product_id(), "2085");
    assert_eq!(info.g_connection_type(), "RTSP");
}

#[test]
fn camera_info_update_id_then_read_back() {
    let mut info = sample_info();
    info.update_id("cam-2".to_string());
    assert_eq!(info.g_id(), "cam-2");
    assert_eq!(info.g_name(), "Front door");
    assert_eq!(info.g_connection_type(), "RTSP");
}

#[test]
fn connection_type_names() {
    let make = |c| CameraInfo::new(&String::new(), &String::new(), c, 0, &String::new(), &String::new(), String::new());
    assert_eq!(make(ConnectionType::SSH).g_connection_type(), "SSH");
    assert_eq!(make(ConnectionType::RTSP).g_connection_type(), "RTSP");
    assert_eq!(make(ConnectionType::HARD).g_connection_type(), "HARD");
}

#[test]
fn frame_buffer_copies_bytes() {
    let raw = [1u8, 2, 3, 255];
    let frame = FrameBuff::new(&raw);
    assert_eq!(frame.buffer(), vec![1u8, 2, 3, 255]);
    assert_eq!(frame.buffer(), frame.buffer());
    assert_eq!(FrameBuff::new(&[]).buffer(), Vec::<u8>::new());
}

#[test]
fn frame_payload_of_a_failed_receive_is_empty() {
    let frame = FrameBuff::new(&[9, 8]);
    assert_eq!(FrameBuff::payload_or_empty(Some(&frame)), vec![9u8, 8]);
    assert_eq!(FrameBuff::payload_or_empty(None), Vec::<u8>::new());
}
