use image_index::storage::probe_path;
use image_index::storage::storage_step;
use image_index::storage::StorageEvent;
use image_index::storage::StorageStep;

fn run_to_done(data_dir: &str, removal: Result<(), String>) -> StorageStep {
    let s = storage_step(
        StorageStep::ResolveDataDir,
        StorageEvent::GotDataDir { outcome: Ok(data_dir.to_string()) },
    );
    let s = storage_step(s, StorageEvent::DirEnsured { outcome: Ok(()) });
    let s = storage_step(s, StorageEvent::ProbeWritten { outcome: Ok(()) });
    storage_step(s, StorageEvent::ProbeRemoved { outcome: removal })
}

#[test]
fn a_resolved_data_dir_fixes_the_image_dir() {
    let s = storage_step(
        StorageStep::ResolveDataDir,
        StorageEvent::GotDataDir { outcome: Ok("/home/u/.local/share/app".to_string()) },
    );
    match s {
        StorageStep::EnsureDir { dir } => assert_eq!(dir, "/home/u/.local/share/app/images"),
        _ => panic!("expected the directory to be owed next"),
    }
}

#[test]
fn a_successful_run_ends_done_with_the_images_dir() {
    match run_to_done("/data/app", Ok(())) {
        StorageStep::Done { dir } => assert_eq!(dir, "/data/app/images"),
        _ => panic!("expected a successful resolution"),
    }
}

#[test]
fn two_runs_from_the_same_data_dir_return_the_same_path() {
    let first = match run_to_done("/data/app", Ok(())) {
        StorageStep::Done { dir } => dir,
        _ => panic!("expected a successful resolution"),
    };
    let second = match run_to_done("/data/app", Ok(())) {
        StorageStep::Done { dir } => dir,
        _ => panic!("expected a successful resolution"),
    };
    assert_eq!(first, second);
}

#[test]
fn a_failed_probe_removal_is_advisory_only() {
    match run_to_done("/data/app", Err("probe is busy".to_string())) {
        StorageStep::Done { dir } => assert_eq!(dir, "/data/app/images"),
        _ => panic!("a failed removal must not demote the resolution"),
    }
}

#[test]
fn an_unresolvable_data_dir_is_its_own_error() {
    let s = storage_step(
        StorageStep::ResolveDataDir,
        StorageEvent::GotDataDir { outcome: Err("no platform directory".to_string()) },
    );
    match s {
        StorageStep::Failed { message } => assert_eq!(
            message,
            "could not resolve the application data directory: no platform directory"
        ),
        _ => panic!("expected a failure"),
    }
}

#[test]
fn a_failed_creation_is_its_own_error() {
    let s = storage_step(
        StorageStep::EnsureDir { dir: "/data/app/images".to_string() },
        StorageEvent::DirEnsured { outcome: Err("permission denied".to_string()) },
    );
    match s {
        StorageStep::Failed { message } => {
            assert_eq!(message, "could not create the image directory: permission denied")
        },
        _ => panic!("expected a failure"),
    }
}

#[test]
fn an_unwritable_directory_is_an_error_not_a_path() {
    let s = storage_step(
        StorageStep::ProbeWrite { dir: "/data/app/images".to_string() },
        StorageEvent::ProbeWritten { outcome: Err("read-only filesystem".to_string()) },
    );
    match s {
        StorageStep::Failed { message } => {
            assert_eq!(message, "the image directory is not writable: read-only filesystem")
        },
        StorageStep::Done { .. } => panic!("an unwritable directory must not resolve"),
        _ => panic!("expected a failure"),
    }
}

#[test]
fn an_event_that_answers_nothing_changes_nothing() {
    let s = storage_step(
        StorageStep::ResolveDataDir,
        StorageEvent::ProbeRemoved { outcome: Ok(()) },
    );
    assert!(matches!(s, StorageStep::ResolveDataDir));
}

#[test]
fn the_probe_file_sits_inside_the_directory() {
    assert_eq!(
        probe_path("/data/app/images"),
        "/data/app/images/test_write_permission.tmp"
    );
}
