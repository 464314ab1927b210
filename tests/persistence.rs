use std::collections::HashMap;

use music_jam_app::error::{ErrorKind, PersistenceError};
use music_jam_app::file_name::{decimal_string, stored_path_string, temp_path_string, validate_file_name};
use music_jam_app::persistence::{FileOp, SaveJob};

/// Which operation the simulated host fails, if any.
#[derive(Clone, Copy, PartialEq)]
enum Fault {
    Nothing,
    CreateDir,
    Write,
    Rename,
}

/// Runs a save against an in-memory file tree, as a host would, and returns
/// the result and the operations that were asked for.
fn run_save(
    tree: &mut HashMap<String, Vec<u8>>,
    mut job: SaveJob,
    fault: Fault,
) -> (Result<String, PersistenceError>, Vec<String>) {
    let mut ops = Vec::new();
    loop {
        match job.next_op() {
            FileOp::CreateDir(dir) => {
                ops.push(format!("mkdir {}", dir));
                if fault == Fault::CreateDir {
                    job.advance(Err("permission denied".to_string()));
                } else {
                    job.advance(Ok(()));
                }
            }
            FileOp::WriteTemp(path) => {
                ops.push(format!("write {}", path));
                if fault == Fault::Write {
                    let partial: Vec<u8> = job.payload().iter().take(1).cloned().collect();
                    tree.insert(path, partial);
                    job.advance(Err("disk full".to_string()));
                } else {
                    tree.insert(path, job.payload().clone());
                    job.advance(Ok(()));
                }
            }
            FileOp::Rename(from, to) => {
                ops.push(format!("rename {} {}", from, to));
                if fault == Fault::Rename {
                    job.advance(Err("rename refused".to_string()));
                } else {
                    let bytes = tree.remove(&from).expect("temporary file present");
                    tree.insert(to, bytes);
                    job.advance(Ok(()));
                }
            }
            FileOp::RemoveTemp(path) => {
                ops.push(format!("remove {}", path));
                tree.remove(&path);
                job.advance(Ok(()));
            }
            FileOp::Finish(result) => return (result, ops),
        }
    }
}

fn riff_clip() -> Vec<u8> {
    vec![0x52, 0x49, 0x46, 0x46, 0x24, 0x00, 0x00, 0x00, 0x57, 0x41, 0x56, 0x45]
}

#[test]
fn save_clip_scenario() {
    let mut tree = HashMap::new();
    let data = riff_clip();
    let job = SaveJob::new("clip1.wav", 1, data.clone()).expect("valid name");
    let (result, _) = run_save(&mut tree, job, Fault::Nothing);
    let path = result.expect("save succeeds");
    assert!(path.ends_with("audio/clip1.wav"));
    assert_eq!(path, "audio/clip1.wav");
    assert_eq!(tree.get(&path), Some(&data));
    assert_eq!(tree.len(), 1);
}

#[test]
fn save_round_trip_on_several_payloads() {
    for (name, data) in [
        ("a.wav", vec![]),
        (".hidden", vec![0u8; 1000]),
        ("take 2.ogg", vec![1, 2, 3]),
        ("a..b", vec![7]),
        ("untitled...wav", vec![8, 9]),
    ] {
        let mut tree = HashMap::new();
        let job = SaveJob::new(name, 7, data.clone()).expect("valid name");
        let (result, _) = run_save(&mut tree, job, Fault::Nothing);
        let path = result.expect("save succeeds");
        assert_eq!(path, format!("audio/{}", name));
        assert_eq!(tree.get(&path), Some(&data));
    }
}

#[test]
fn save_operations_in_order() {
    let mut tree = HashMap::new();
    let job = SaveJob::new("clip1.wav", 42, vec![9]).expect("valid name");
    let (_, ops) = run_save(&mut tree, job, Fault::Nothing);
    assert_eq!(
        ops,
        vec![
            "mkdir audio".to_string(),
            "mkdir audio-partial".to_string(),
            "write audio-partial/42-clip1.wav".to_string(),
            "rename audio-partial/42-clip1.wav audio/clip1.wav".to_string(),
        ]
    );
}

#[test]
fn traversal_scenario_rejected() {
    match SaveJob::new("../../etc/passwd", 1, vec![0x00]) {
        Err(e) => {
            assert!(matches!(e, PersistenceError::InvalidFileName));
            assert_eq!(e.kind(), ErrorKind::InputValidation);
        }
        Ok(_) => panic!("a traversal name must be refused"),
    }
}

#[test]
fn unsafe_names_rejected() {
    for name in ["", ".", "..", "a/../b", "..\\x", "a/b", "dir\\clip", "x\0y", "clip/", "../../etc/passwd"] {
        assert!(!validate_file_name(name), "{:?} must be refused", name);
        let refused = SaveJob::new(name, 1, vec![1]);
        assert!(matches!(refused, Err(PersistenceError::InvalidFileName)));
    }
}

#[test]
fn safe_names_accepted() {
    for name in ["clip1.wav", ".hidden", "a.b.c", "x", "jam session.wav", "drums-01_final.flac", "a..b", "take..2.wav", "untitled...wav", "..."] {
        assert!(validate_file_name(name), "{:?} must be accepted", name);
    }
}

#[test]
fn second_save_replaces_first_in_full() {
    let mut tree = HashMap::new();
    let first = vec![1u8; 64];
    let second = vec![2u8, 3];
    let (r1, _) = run_save(&mut tree, SaveJob::new("loop.wav", 1, first).unwrap(), Fault::Nothing);
    let (r2, _) = run_save(&mut tree, SaveJob::new("loop.wav", 2, second.clone()).unwrap(), Fault::Nothing);
    assert_eq!(r1.unwrap(), "audio/loop.wav");
    assert_eq!(r2.unwrap(), "audio/loop.wav");
    assert_eq!(tree.get("audio/loop.wav"), Some(&second));
    assert_eq!(tree.len(), 1);
}

#[test]
fn failed_write_leaves_previous_clip() {
    let mut tree = HashMap::new();
    let first = vec![5u8; 8];
    run_save(&mut tree, SaveJob::new("loop.wav", 1, first.clone()).unwrap(), Fault::Nothing).0.unwrap();
    let (result, ops) = run_save(&mut tree, SaveJob::new("loop.wav", 2, vec![6u8; 8]).unwrap(), Fault::Write);
    match result {
        Err(PersistenceError::WriteFailed(m)) => assert_eq!(m, "disk full"),
        other => panic!("unexpected result {:?}", other),
    }
    assert_eq!(ops.last().unwrap(), "remove audio-partial/2-loop.wav");
    assert_eq!(tree.get("audio/loop.wav"), Some(&first));
    assert_eq!(tree.len(), 1);
}

#[test]
fn failed_rename_cleans_up() {
    let mut tree = HashMap::new();
    let (result, ops) = run_save(&mut tree, SaveJob::new("a.wav", 3, vec![1]).unwrap(), Fault::Rename);
    let e = result.unwrap_err();
    assert_eq!(e.kind(), ErrorKind::ResourceUnavailable);
    assert_eq!(e.message(), "could not write the audio file: rename refused");
    assert_eq!(ops.len(), 5);
    assert!(tree.is_empty());
}

#[test]
fn directory_failure_reported() {
    let mut tree = HashMap::new();
    let (result, ops) = run_save(&mut tree, SaveJob::new("a.wav", 3, vec![1]).unwrap(), Fault::CreateDir);
    let e = result.unwrap_err();
    assert!(matches!(e, PersistenceError::DirectoryCreateFailed(_)));
    assert_eq!(e.kind(), ErrorKind::ResourceUnavailable);
    assert_eq!(e.message(), "could not create the storage directory: permission denied");
    assert_eq!(ops, vec!["mkdir audio".to_string()]);
    assert!(tree.is_empty());
}

#[test]
fn finished_job_stays_finished() {
    let mut job = SaveJob::new("a.wav", 3, vec![1]).unwrap();
    assert!(!job.is_finished());
    for _ in 0..4 {
        job.advance(Ok(()));
    }
    assert!(job.is_finished());
    job.advance(Err("ignored".to_string()));
    match job.next_op() {
        FileOp::Finish(Ok(p)) => assert_eq!(p, "audio/a.wav"),
        other => panic!("unexpected operation {:?}", other),
    }
}

#[test]
fn paths_and_digits() {
    assert_eq!(stored_path_string("clip1.wav"), "audio/clip1.wav");
    assert_eq!(temp_path_string("clip1.wav", 0), "audio-partial/0-clip1.wav");
    assert_eq!(temp_path_string("a..b", 4_294_967_301), "audio-partial/4294967301-a..b");
    assert_eq!(decimal_string(0), "0");
    assert_eq!(decimal_string(907), "907");
    assert_eq!(decimal_string(u64::MAX), u64::MAX.to_string());
    assert_ne!(temp_path_string("a", 1), temp_path_string("a", 2));
}

#[test]
fn invalid_name_message() {
    assert_eq!(PersistenceError::InvalidFileName.message(), "invalid file name");
    assert_eq!(PersistenceError::WriteFailed("x".to_string()).duplicate().message(), "could not write the audio file: x");
}

/// Performs one operation of `job` on `tree`; returns the result once finished.
fn perform_one(tree: &mut HashMap<String, Vec<u8>>, job: &mut SaveJob) -> Option<Result<String, PersistenceError>> {
    match job.next_op() {
        FileOp::CreateDir(_) => job.advance(Ok(())),
        FileOp::WriteTemp(path) => {
            tree.insert(path, job.payload().clone());
            job.advance(Ok(()));
        }
        FileOp::Rename(from, to) => {
            let bytes = tree.remove(&from).expect("temporary file present");
            tree.insert(to, bytes);
            job.advance(Ok(()));
        }
        FileOp::RemoveTemp(path) => {
            tree.remove(&path);
            job.advance(Ok(()));
        }
        FileOp::Finish(result) => return Some(result),
    }
    None
}

#[test]
fn interleaved_saves_never_mix() {
    let mut tree = HashMap::new();
    let first = vec![0xAAu8; 16];
    let second = vec![0xBBu8; 4];
    let mut a = SaveJob::new("jam.wav", 10, first.clone()).unwrap();
    let mut b = SaveJob::new("jam.wav", 11, second.clone()).unwrap();
    for _ in 0..3 {
        perform_one(&mut tree, &mut a);
        perform_one(&mut tree, &mut b);
    }
    assert_eq!(tree.len(), 2);
    perform_one(&mut tree, &mut b);
    assert_eq!(tree.get("audio/jam.wav"), Some(&second));
    perform_one(&mut tree, &mut a);
    assert_eq!(tree.get("audio/jam.wav"), Some(&first));
    assert_eq!(perform_one(&mut tree, &mut a).unwrap().unwrap(), "audio/jam.wav");
    assert_eq!(perform_one(&mut tree, &mut b).unwrap().unwrap(), "audio/jam.wav");
    assert_eq!(tree.len(), 1);
}
