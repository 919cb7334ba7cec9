use gloss::files::{
    atomic_write, new_temporary_name, next_write_step, temporary_file_name, WriteStep,
};

/// A folder with one file and perhaps a temporary file, as a disk would hold it.
struct Folder {
    file: Option<Vec<u8>>,
    temporary: Option<Vec<u8>>,
}

fn atomic_write_with_commit(
    folder: &mut Folder,
    payload: &[u8],
    commit: fn() -> Result<(), String>,
) -> Result<(), String> {
    let mut step = atomic_write(true);
    loop {
        let outcome = match &step {
            WriteStep::Create => {
                folder.temporary = Some(Vec::new());
                Ok(())
            }
            WriteStep::Write => {
                folder.temporary.as_mut().unwrap().extend_from_slice(payload);
                Ok(())
            }
            WriteStep::Flush | WriteStep::Sync => Ok(()),
            WriteStep::Commit => commit().map(|()| folder.file = folder.temporary.take()),
            WriteStep::Cleanup(_) => {
                folder.temporary = None;
                Ok(())
            }
            WriteStep::Done(result) => return result.clone(),
        };
        step = next_write_step(step, outcome);
    }
}

#[test]
fn atomic_write_replaces_an_existing_file() {
    let mut folder = Folder { file: Some(b"old settings".to_vec()), temporary: None };

    atomic_write_with_commit(&mut folder, b"new settings", || Ok(())).unwrap();

    assert_eq!(folder.file.unwrap(), b"new settings");
    assert!(folder.temporary.is_none());
}

#[test]
fn atomic_write_cleans_up_after_commit_failure_and_preserves_original() {
    let mut folder = Folder { file: Some(b"original token".to_vec()), temporary: None };

    let result = atomic_write_with_commit(&mut folder, b"replacement token", || {
        Err("simulated commit failure".to_owned())
    });

    assert_eq!(result.unwrap_err(), "simulated commit failure");
    assert_eq!(folder.file.unwrap(), b"original token");
    assert!(folder.temporary.is_none());
}

fn failing_at(successes: usize) -> String {
    let mut step = atomic_write(true);
    for _ in 0..successes {
        step = next_write_step(step, Ok(()));
    }
    step = next_write_step(step, Err("disk full".to_owned()));
    assert!(matches!(step, WriteStep::Cleanup(_)));
    match next_write_step(step, Err("cannot remove".to_owned())) {
        WriteStep::Done(result) => result.unwrap_err(),
        other => panic!("{:?}", other),
    }
}

#[test]
fn every_step_can_fail() {
    assert_eq!(failing_at(0), "Could not create a temporary history file: disk full");
    assert_eq!(failing_at(1), "Could not save the history item: disk full");
    assert_eq!(failing_at(2), "Could not save the history item: disk full");
    assert_eq!(failing_at(3), "Could not save the history item: disk full");
    assert_eq!(failing_at(4), "disk full");
}

#[test]
fn file_without_a_folder_is_not_written() {
    match atomic_write(false) {
        WriteStep::Done(result) => {
            assert_eq!(result.unwrap_err(), "The history path has no parent folder.")
        }
        other => panic!("{:?}", other),
    }
}

#[test]
fn finished_replacement_stays_finished() {
    let done = next_write_step(WriteStep::Done(Ok(())), Err("late".to_owned()));
    assert!(matches!(done, WriteStep::Done(Ok(()))));
}

#[test]
fn temporary_files_are_hidden_and_new() {
    assert_eq!(temporary_file_name("abc"), ".abc.tmp");
    let first = new_temporary_name();
    let second = new_temporary_name();
    assert_ne!(first, second);
    assert_eq!(first.len(), 41);
    assert!(first.starts_with('.') && first.ends_with(".tmp"));
}
