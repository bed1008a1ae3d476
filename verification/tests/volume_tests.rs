use imagequick::volume::{browsable_volumes, default_volume, offered_for_browsing, VolumeRoot};

#[test]
fn volume_is_named_by_its_last_segment() {
    let volume = VolumeRoot::new("/Volumes/EOS_DIGITAL".to_string());
    assert_eq!(volume.path(), "/Volumes/EOS_DIGITAL");
    assert_eq!(volume.display_name(), "EOS_DIGITAL");
}

#[test]
fn system_disk_is_not_offered() {
    assert!(!offered_for_browsing("/Volumes/Macintosh HD"));
    assert!(!offered_for_browsing("/Volumes/Macintosh HD - Data"));
    assert!(offered_for_browsing("/Volumes/SD"));
    assert!(offered_for_browsing("/Volumes/macintosh hd"));
    assert!(offered_for_browsing("/Macintosh HD/SD"));
}

#[test]
fn browsable_volumes_keep_their_order() {
    let volumes = browsable_volumes(vec![
        "/Volumes/B".to_string(),
        "/Volumes/Macintosh HD".to_string(),
        "/Volumes/A".to_string(),
    ]);
    let paths: Vec<&str> = volumes.iter().map(|v| v.path()).collect();
    assert_eq!(paths, vec!["/Volumes/B", "/Volumes/A"]);
    assert_eq!(default_volume(&volumes).map(|v| v.path()), Some("/Volumes/B"));
}

#[test]
fn no_volume_no_default() {
    let volumes = browsable_volumes(vec!["/Volumes/Macintosh HD".to_string()]);
    assert!(volumes.is_empty());
    assert!(default_volume(&volumes).is_none());
}
