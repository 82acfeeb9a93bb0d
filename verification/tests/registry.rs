use openads::info::{CameraInfo, ConnectionType};
use openads::read::{camera_record, Camera, Read};
use openads::scan::{IdInformation, UsbLinkInfo};

fn camera(name: &str, vendor: &str, product: &str, id: Option<&str>) -> Camera {
    Camera {
        name: name.to_string(),
        device_count: "001".to_string(),
        device_type: "usb".to_string(),
        vendor_id: vendor.to_string(),
        product_id: product.to_string(),
        id: id.map(|s| s.to_string()),
    }
}

fn is_v4_uuid(s: &str) -> bool {
    let b: Vec<char> = s.chars().collect();
    b.len() == 36
        && b.iter().enumerate().all(|(i, c)| {
            if [8, 13, 18, 23].contains(&i) {
                *c == '-'
            } else {
                c.is_ascii_digit() || ('a'..='f').contains(c)
            }
        })
        && b[14] == '4'
        && "89ab".contains(b[19])
}

#[test]
fn camera_update_id_sets_the_id() {
    let mut c = camera("a", "1", "2", None);
    c.update_id("x".to_string());
    assert_eq!(c.id, Some("x".to_string()));
    assert_eq!(c.name, "a");
}

#[test]
fn new_registry_has_no_validated_camera() {
    let read = Read::new(vec![camera("a", "1", "2", None)]);
    assert_eq!(read.device_count(), 0);
    assert!(read.validated_cameras().is_empty());
    assert_eq!(read.cameras().len(), 1);
}

#[test]
fn ids_must_be_numeric() {
    assert!(Read::new(vec![camera("a", "1133", "2085", None)]).ids_are_numeric());
    assert!(!Read::new(vec![camera("a", "1133", "0x825", None)]).ids_are_numeric());
    assert!(!Read::new(vec![camera("a", "", "2085", None)]).ids_are_numeric());
    assert!(Read::new(vec![]).ids_are_numeric());
}

#[test]
fn validation_matches_and_assigns_ids() {
    let mut read = Read::new(vec![
        camera("Front", "1133", "2085", Some("front-id")),
        camera("Back", "1133", "2086", None),
        camera("Garage", "7", "7", None),
    ]);
    let scanned = vec![UsbLinkInfo::new(1, 1), UsbLinkInfo::new(1133, 2086), UsbLinkInfo::new(1133, 2085)];
    read.validate_and_match(&scanned);
    assert_eq!(read.device_count(), 2);
    let cams = read.cameras();
    assert_eq!(cams[0].id, Some("front-id".to_string()));
    let back_id = cams[1].id.clone().unwrap();
    assert!(is_v4_uuid(&back_id));
    assert_eq!(cams[2].id, None);
    let v = read.validated_cameras();
    assert_eq!(v[0].g_id(), "front-id");
    assert_eq!(v[0].g_name(), "Front");
    assert_eq!(v[0].g_vendor_id(), "1133");
    assert_eq!(v[0].g_product_id(), "2085");
    assert_eq!(v[0].g_connection_type(), "HARD");
    assert_eq!(v[1].g_id(), back_id);
    assert_eq!(v[1].g_name(), "Back");
}

#[test]
fn second_validation_keeps_the_registry() {
    let mut read = Read::new(vec![camera("Back", "1133", "2086", None), camera("Front", "+1133", "02085", None)]);
    let scanned = vec![UsbLinkInfo::new(1133, 2085), UsbLinkInfo::new(1133, 2086)];
    read.validate_and_match(&scanned);
    let after_first: Vec<Camera> = read.cameras().clone();
    read.validate_and_match(&scanned);
    assert_eq!(read.cameras(), &after_first);
    assert_eq!(read.device_count(), 4);
    let v: Vec<&CameraInfo> = read.validated_cameras().iter().collect();
    assert_eq!(v[0].g_id(), v[2].g_id());
    assert_eq!(v[1].g_id(), v[3].g_id());
    assert_ne!(v[0].g_id(), v[1].g_id());
}

#[test]
fn device_anywhere_in_a_long_scan_is_detected() {
    let mut scanned: Vec<UsbLinkInfo> = (0..99).map(|i| UsbLinkInfo::new(9000, i)).collect();
    scanned.push(UsbLinkInfo::new(1133, 2085));
    assert_eq!(scanned.len(), 100);
    let mut read = Read::new(vec![camera("Front", "1133", "2085", None), camera("Side", "1", "1", None)]);
    read.validate_and_match(&scanned);
    assert_eq!(read.device_count(), 1);
    assert!(read.cameras()[0].id.is_some());
    assert_eq!(read.cameras()[1].id, None);
    assert_eq!(read.validated_cameras()[0].g_name(), "Front");
}

#[test]
fn validations_append_in_call_order() {
    let mut read = Read::new(vec![camera("A", "1", "1", Some("a")), camera("B", "2", "2", Some("b"))]);
    read.validate_and_match(&vec![UsbLinkInfo::new(2, 2)]);
    read.validate_and_match(&vec![UsbLinkInfo::new(1, 1), UsbLinkInfo::new(2, 2)]);
    read.validate_and_match(&vec![]);
    let ids: Vec<String> = read.validated_cameras().iter().map(|c| c.g_id()).collect();
    assert_eq!(ids, vec!["b".to_string(), "a".to_string(), "b".to_string()]);
}

#[test]
fn registry_entry_from_device_text_is_detected() {
    let dev = UsbLinkInfo::new(4660, 22136);
    let mut read = Read::new(vec![camera("Desk", &dev.g_vendor_id(), &dev.g_product_id(), Some("d"))]);
    read.validate_and_match(&vec![dev]);
    assert_eq!(read.device_count(), 1);
}

#[test]
fn records_quote_fields() {
    let c = camera("Front \"A\"", "1133", "2085", Some("id-1"));
    assert_eq!(
        camera_record(&c),
        "<cameras>\n\t<camera name=\"Front \\\"A\\\"\" device_count=\"001\" device_type=\"usb\" vendor_id=\"1133\" product_id=\"2085\" id=\"id-1\"/>\n</cameras>\n"
    );
    let c = camera("Back", "1", "2", None);
    assert_eq!(
        camera_record(&c),
        "<cameras>\n\t<camera name=\"Back\" device_count=\"001\" device_type=\"usb\" vendor_id=\"1\" product_id=\"2\" id=\"\"/>\n</cameras>\n"
    );
}

#[test]
fn records_of_the_registry_in_order() {
    let read = Read::new(vec![camera("A", "1", "2", None), camera("B", "3", "4", Some("b"))]);
    let recs = read.updated_id_records();
    assert_eq!(recs.len(), 2);
    assert_eq!(recs[0], camera_record(&read.cameras()[0]));
    assert!(recs[1].contains("id=\"b\""));
}

#[test]
fn validated_record_fields() {
    let mut read = Read::new(vec![camera("Front", "1133", "2085", Some("f"))]);
    read.validate_and_match(&vec![UsbLinkInfo::new(1133, 2085)]);
    let info: &CameraInfo = &read.validated_cameras()[0];
    let expect = CameraInfo::new(&"Front".to_string(), &String::new(), ConnectionType::HARD, 0, &"1133".to_string(), &"2085".to_string(), "f".to_string());
    assert_eq!(info.g_connection_type(), expect.g_connection_type());
    assert_eq!(info.g_id(), expect.g_id());
}

#[test]
fn record_writes_fixed_device_count() {
    let mut c = camera("cam", "1133", "2085", Some("abc"));
    c.device_count = "002".to_string();
    assert_eq!(
        camera_record(&c),
        "<cameras>\n\t<camera name=\"cam\" device_count=\"001\" device_type=\"usb\" vendor_id=\"1133\" product_id=\"2085\" id=\"abc\"/>\n</cameras>\n"
    );
}
