use openads::storage::{save_root_path, save_target_path, strip_separators, SaveLocation, SaveRecord, Storage};
use openads::store::{container_save_root, count_jobs_in_queue};

#[test]
fn save_paths_of_a_camera() {
    let root = save_root_path(&"cam1".to_string());
    assert_eq!(root, "/var/system/openads/storage/cam1");
    assert_eq!(save_target_path(&root, &"20220614".to_string()), "/var/system/openads/storage/cam1/20220614.avi");
}

#[test]
fn container_root_has_double_slash() {
    assert_eq!(container_save_root(&"cam1".to_string()), "/var/system/openads/storage//cam1");
}

#[test]
fn date_separators_are_stripped() {
    assert_eq!(strip_separators("2022-06-14+02:00"), "20220614+0200");
    assert_eq!(strip_separators(""), "");
    assert_eq!(strip_separators("--::"), "");
    let once = strip_separators("2022-06-14+02:00");
    assert_eq!(strip_separators(&once), once);
}

#[test]
fn last_saved_target_follows_the_date() {
    assert_eq!(SaveLocation::last_saved_target(&"2022-06-14+02:00".to_string(), "20220614+0200".to_string()), "20220614+0200");
    assert_eq!(SaveLocation::last_saved_target(&"2022-06-15+02:00".to_string(), "20220614+0200".to_string()), "20220615+0200");
    assert_eq!(SaveLocation::last_saved_target(&"2022-06-15".to_string(), String::new()), "20220615");
}

#[test]
fn update_last_saved_has_no_separators() {
    let target = SaveLocation::update_last_saved(String::new());
    assert!(!target.is_empty());
    assert!(!target.contains('-') && !target.contains(':'));
    let expected: String = chrono::Local::now().date_naive().format("%Y%m%d").to_string();
    assert!(target.starts_with(&expected) || target.len() >= 11);
    assert!(target[8..].starts_with('+') || target[8..].starts_with('-'));
    assert!(target.len() == 13 || target.len() == 15);
}

fn record(id: &str, counter: usize, current: &str, root: &str) -> SaveRecord {
    SaveRecord { id: id.to_string(), save_counter: counter, current_save: current.to_string(), save_root: root.to_string() }
}

#[test]
fn fresh_save_location_and_storage() {
    let loc = SaveLocation::new(&"cam1".to_string(), &vec![]);
    assert_eq!(loc.save_counter, 0);
    assert_eq!(loc.current_save, "");
    assert_eq!(loc.save_root, "");
    let storage = Storage::new("cam1".to_string(), "Front".to_string(), "1133".to_string(), "2085".to_string(), &vec![]);
    assert_eq!(storage.device_name, "Front");
    assert!(storage.img_buffer.is_empty());
    assert_eq!(storage.reset_after, 24);
    assert_eq!(storage.save_location.save_counter, 0);
    assert_eq!(Storage::required_storage_size(), 256u64 << 30);
}

#[test]
fn save_location_restored_from_registry() {
    let registry = vec![
        record("cam0", 9, "20220101+0000", "/r0"),
        record("cam1", 3, "20220614+0200", "/var/system/openads/storage/cam1"),
        record("cam1", 7, "other", "/other"),
    ];
    let loc = SaveLocation::new(&"cam1".to_string(), &registry);
    assert_eq!(loc.save_counter, 3);
    assert_eq!(loc.current_save, "20220614+0200");
    assert_eq!(loc.save_root, "/var/system/openads/storage/cam1");
    let loc = SaveLocation::new(&"cam2".to_string(), &registry);
    assert_eq!(loc.save_counter, 0);
    assert_eq!(loc.current_save, "");
    let storage = Storage::new("cam0".to_string(), "Back".to_string(), "1".to_string(), "2".to_string(), &registry);
    assert_eq!(storage.save_location.save_counter, 9);
    assert_eq!(storage.save_location.save_root, "/r0");
}

#[test]
fn jobs_in_queue_sum_pending_frames() {
    assert_eq!(count_jobs_in_queue(&vec![]), Some(0));
    assert_eq!(count_jobs_in_queue(&vec![3, 0, 4]), Some(7));
    assert_eq!(count_jobs_in_queue(&vec![usize::MAX, 0]), Some(usize::MAX));
    assert_eq!(count_jobs_in_queue(&vec![usize::MAX, 1]), None);
}
