use std::sync::Mutex;

use ftx::connection::{CancelCheck, ConnectionTrait, FileEntry, ProgressCallback};
use ftx::engine::{conclude, end_run, plan_transfer, run_transfer, ResumeAction, RunEnd, TaskRegistry};
use ftx::pipeline::{ReadStep, TransferCounter, WriteStep};
use ftx::progress::ProgressReader;
use ftx::transfer::{
    direction_of_task, failure_resume_record, progress_counts, resume_offset,
    resume_save_due, task_outcome, TaskOutcome, TransferDirection, TransferStatus, TransferTask,
};

struct Recorder {
    values: Mutex<Vec<(u64, u64)>>,
}

impl ProgressCallback for Recorder {
    fn report(&self, transferred: u64, total: u64) {
        self.values.lock().unwrap().push((transferred, total));
    }
}

struct Cancelled(bool);

impl CancelCheck for Cancelled {
    fn is_cancelled(&self) -> bool {
        self.0
    }
}

#[test]
fn test_transfer_task_creation() {
    let task = TransferTask::new(
        1,
        "test.txt".to_string(),
        "/local/test.txt".to_string(),
        "/remote/test.txt".to_string(),
        "upload".to_string(),
        1024,
    );
    assert!(!task.id.is_empty());
    assert_eq!(task.host_id, 1);
    assert_eq!(task.filename, "test.txt");
    assert_eq!(task.file_size, 1024);
}

#[test]
fn test_transfer_task_unique_ids() {
    let task1 = TransferTask::new(1, "a.txt".into(), "/a".into(), "/a".into(), "upload".into(), 0);
    let task2 = TransferTask::new(1, "b.txt".into(), "/b".into(), "/b".into(), "upload".into(), 0);
    assert_ne!(task1.id, task2.id);
    assert_eq!(task1.id.len(), 36);
}

#[test]
fn test_progress_absolute_offset_session_speed() {
    let total_bytes = 1000_u64;
    let resume_offset = 200_u64;
    let transferred_abs = 500_u64;
    let elapsed = 2.0_f64;

    let counts = progress_counts(transferred_abs, total_bytes, resume_offset);
    let effective_transferred = counts.effective_transferred;
    let session_bytes = counts.session_bytes;
    let speed = session_bytes as f64 / elapsed;

    assert_eq!(effective_transferred, 500);
    assert_eq!(session_bytes, 300);
    assert_eq!(speed, 150.0);

    let remaining = if speed > 0.0 && total_bytes > effective_transferred {
        counts.remaining_bytes as f64 / speed
    } else {
        0.0
    };
    assert!((remaining - 500.0 / 150.0).abs() < f64::EPSILON);
}

#[test]
fn progress_counts_caps_at_total() {
    let c = progress_counts(1500, 1000, 200);
    assert_eq!(c.effective_transferred, 1000);
    assert_eq!(c.session_bytes, 800);
    assert_eq!(c.remaining_bytes, 0);
    let c = progress_counts(100, 1000, 200);
    assert_eq!(c.session_bytes, 0);
}

#[test]
fn direction_texts() {
    assert_eq!(TransferDirection::Upload.as_string(), "upload");
    assert_eq!(TransferDirection::Download.as_string(), "download");
    assert_eq!(TransferDirection::from_str("upload"), Some(TransferDirection::Upload));
    assert_eq!(TransferDirection::from_str("download"), Some(TransferDirection::Download));
    assert_eq!(TransferDirection::from_str("Upload"), None);
    assert_eq!(direction_of_task("upload"), TransferDirection::Upload);
    assert_eq!(direction_of_task("anything"), TransferDirection::Download);
    for d in [TransferDirection::Upload, TransferDirection::Download] {
        assert_eq!(TransferDirection::from_str(&d.as_string()), Some(d));
    }
}

#[test]
fn resume_offset_and_save_interval() {
    assert_eq!(resume_offset(Ok(Some(4096))), 4096);
    assert_eq!(resume_offset(Ok(None)), 0);
    assert_eq!(resume_offset(Err("db".into())), 0);
    assert!(!resume_save_due(2));
    assert!(resume_save_due(3));
}

#[test]
fn outcome_cancellation_wins() {
    assert!(matches!(task_outcome(true, Ok(10), 5), TaskOutcome::Cancelled));
    assert!(matches!(task_outcome(false, Ok(10), 5), TaskOutcome::Completed { transferred: 15 }));
    match task_outcome(false, Err("boom".into()), 5) {
        TaskOutcome::Failed { error } => assert_eq!(error, "boom"),
        other => panic!("unexpected {:?}", other),
    }
    assert!(matches!(
        task_outcome(false, Ok(u64::MAX), 5),
        TaskOutcome::Completed { transferred: u64::MAX }
    ));
}

#[test]
fn failure_record_starts_over() {
    let task = TransferTask::new(3, "f".into(), "/l/f".into(), "/r/f".into(), "download".into(), 77);
    let r = failure_resume_record(&task);
    assert_eq!(r.transfer_id, task.id);
    assert_eq!(r.host_id, 3);
    assert_eq!(r.remote_path, "/r/f");
    assert_eq!(r.local_path, "/l/f");
    assert_eq!(r.direction, TransferDirection::Download);
    assert_eq!(r.file_size, 77);
    assert_eq!(r.transferred_bytes, 0);
    assert!(r.id.is_none());
}

#[test]
fn test_progress_reader() {
    let data = b"hello world";
    let recorder = Recorder { values: Mutex::new(Vec::new()) };

    let mut reader = ProgressReader::new(&data[..], 0, data.len() as u64, Some(&recorder), None);

    let mut buf = [0u8; 5];
    let n = reader.read(&mut buf).unwrap();
    assert_eq!(n, 5);
    assert_eq!(reader.transferred, 5);

    let n = reader.read(&mut buf).unwrap();
    assert_eq!(n, 5);
    assert_eq!(reader.transferred, 10);

    let n = reader.read(&mut buf).unwrap();
    assert_eq!(n, 1);
    assert_eq!(reader.transferred, 11);

    let values = recorder.values.lock().unwrap();
    assert_eq!(values.len(), 3);
    assert_eq!(values[0], (5, 11));
    assert_eq!(values[1], (10, 11));
    assert_eq!(values[2], (11, 11));
}

#[test]
fn test_progress_reader_aborts_when_cancelled() {
    let data = b"hello world";
    let cancel = Cancelled(true);

    let mut reader = ProgressReader::new(&data[..], 0, data.len() as u64, None, Some(&cancel));

    let mut buf = [0u8; 5];
    let err = reader.read(&mut buf).unwrap_err();
    assert_eq!(err.kind(), std::io::ErrorKind::Interrupted);
    assert_eq!(reader.transferred, 0);
}

#[test]
fn test_progress_reader_no_callback() {
    let data = b"test";
    let mut reader = ProgressReader::new(&data[..], 0, data.len() as u64, None, None);

    let mut buf = [0u8; 10];
    let n = reader.read(&mut buf).unwrap();
    assert_eq!(n, 4);
    assert_eq!(reader.transferred, 4);
    assert_eq!(&buf[..4], b"test");
}

#[test]
fn test_progress_reader_with_offset() {
    let data = b"remaining data";
    let mut reader = ProgressReader::new(&data[..], 100, 114, None, None);

    let mut buf = [0u8; 256];
    let n = reader.read(&mut buf).unwrap();
    assert_eq!(n, 14);
    assert_eq!(reader.transferred, 114);
}

#[test]
fn progress_reader_end_reports_nothing() {
    let data: &[u8] = b"";
    let recorder = Recorder { values: Mutex::new(Vec::new()) };
    let not_cancelled = Cancelled(false);
    let mut reader = ProgressReader::new(data, 7, 7, Some(&recorder), Some(&not_cancelled));
    let mut buf = [0u8; 4];
    assert_eq!(reader.read(&mut buf).unwrap(), 0);
    assert_eq!(reader.transferred, 7);
    assert!(recorder.values.lock().unwrap().is_empty());
}

#[test]
fn progress_reader_count_accounts_for_one_read() {
    let data: &[u8] = b"";
    let recorder = Recorder { values: Mutex::new(Vec::new()) };
    let mut reader = ProgressReader::new(data, 10, 20, Some(&recorder), None);
    assert_eq!(reader.count(Ok(3)).unwrap(), 3);
    assert_eq!(reader.transferred, 13);
    let err = reader
        .count(Err(std::io::Error::new(std::io::ErrorKind::Other, "gone")))
        .unwrap_err();
    assert_eq!(err.kind(), std::io::ErrorKind::Other);
    assert_eq!(reader.transferred, 13);
    reader.transferred = u64::MAX - 1;
    assert_eq!(reader.count(Ok(5)).unwrap(), 5);
    assert_eq!(reader.transferred, u64::MAX);
    let values = recorder.values.lock().unwrap();
    assert_eq!(*values, vec![(13, 20), (u64::MAX, 20)]);
}

#[test]
fn progress_reader_read_checked_follows_the_answer() {
    let data = b"abc";
    let mut reader = ProgressReader::new(&data[..], 4, 7, None, None);
    let mut buf = [9u8; 2];
    let err = reader.read_checked(&mut buf, true).unwrap_err();
    assert_eq!(err.kind(), std::io::ErrorKind::Interrupted);
    assert_eq!(reader.transferred, 4);
    assert_eq!(buf, [9u8, 9u8]);
    assert_eq!(reader.inner.len(), 3);
    assert_eq!(reader.read_checked(&mut buf, false).unwrap(), 2);
    assert_eq!(buf, [b'a', b'b']);
    assert_eq!(reader.transferred, 6);
}

#[test]
fn plan_transfer_picks_the_call() {
    let up = TransferTask::new(
        1,
        "a.txt".to_string(),
        "/l/a.txt".to_string(),
        "/r/a.txt".to_string(),
        "upload".to_string(),
        10,
    );
    let c = plan_transfer(&up, 3);
    assert_eq!(c.direction, TransferDirection::Upload);
    assert_eq!(c.from, "/l/a.txt");
    assert_eq!(c.to, "/r/a.txt");
    assert_eq!(c.offset, 3);
    let down = TransferTask::new(
        1,
        "a.txt".to_string(),
        "/l/a.txt".to_string(),
        "/r/a.txt".to_string(),
        "download".to_string(),
        10,
    );
    let c = plan_transfer(&down, 0);
    assert_eq!(c.direction, TransferDirection::Download);
    assert_eq!(c.from, "/r/a.txt");
    assert_eq!(c.to, "/l/a.txt");
    assert_eq!(c.offset, 0);
}

#[test]
fn counter_positions_for_pipelines() {
    let mut c = TransferCounter::new(100, 250);
    assert_eq!(c.offset(), 100);
    assert_eq!(c.on_read(64, 64), ReadStep::Chunk { position: 164, next_read: Some(164) });
    assert_eq!(c.on_read(64, 64), ReadStep::Chunk { position: 228, next_read: Some(228) });
    assert_eq!(c.on_read(22, 64), ReadStep::Chunk { position: 250, next_read: None });
    assert_eq!(c.on_read(0, 64), ReadStep::End);
    assert_eq!(c.transferred(), 150);

    let mut w = TransferCounter::new(10, 30);
    assert_eq!(w.on_chunk(8), WriteStep::Chunk { write_at: 10, position: 18 });
    assert_eq!(w.on_chunk(12), WriteStep::Chunk { write_at: 18, position: 30 });
    assert_eq!(w.on_chunk(0), WriteStep::End);
    assert_eq!(w.transferred(), 20);
    assert_eq!(w.total_size(), 30);
}

#[test]
fn counter_stops_reading_at_file_end() {
    let mut c = TransferCounter::new(0, 128);
    assert_eq!(c.on_read(128, 128), ReadStep::Chunk { position: 128, next_read: None });
    let mut d = TransferCounter::new(0, 1000);
    assert_eq!(d.record(10), 10);
    assert_eq!(d.record(5), 15);
}

#[test]
fn registry_tracks_and_cancels() {
    let mut reg = TaskRegistry::new();
    assert!(reg.ids().is_empty());
    reg.insert("a".to_string());
    reg.insert("b".to_string());
    assert_eq!(reg.cancel_flag("a"), Some(false));
    assert!(reg.cancel("a").is_ok());
    assert_eq!(reg.cancel_flag("a"), Some(true));
    assert_eq!(reg.cancel_flag("b"), Some(false));
    assert_eq!(reg.cancel("zzz").unwrap_err(), "Transfer zzz not found");
    reg.remove("a");
    assert_eq!(reg.cancel_flag("a"), None);
    assert_eq!(reg.ids(), vec!["b".to_string()]);
    reg.insert("b".to_string());
    assert_eq!(reg.ids().len(), 1);
    reg.remove("nope");
    assert_eq!(reg.ids().len(), 1);
}

struct EngineMock {
    uploads: u32,
    downloads: u32,
    result: Result<u64, String>,
}

impl ConnectionTrait for EngineMock {
    fn connect(&mut self) -> Result<(), String> {
        Ok(())
    }
    fn disconnect(&mut self) -> Result<(), String> {
        Ok(())
    }
    fn is_connected(&self) -> bool {
        true
    }
    fn list_dir(&mut self, _path: &str) -> Result<Vec<FileEntry>, String> {
        Ok(vec![])
    }
    fn file_size(&mut self, _path: &str) -> Result<u64, String> {
        Ok(0)
    }
    fn file_exists(&mut self, _path: &str) -> Result<bool, String> {
        Ok(true)
    }
    fn upload(
        &mut self,
        _local_path: &str,
        _remote_path: &str,
        offset: u64,
        progress: Option<&dyn ProgressCallback>,
        is_cancelled: Option<&dyn CancelCheck>,
    ) -> Result<u64, String> {
        self.uploads += 1;
        if is_cancelled.is_some_and(|c| c.is_cancelled()) {
            return Err("Transfer cancelled".to_string());
        }
        if let Some(p) = progress {
            p.report(offset + 100, offset + 100);
        }
        self.result.clone()
    }
    fn download(
        &mut self,
        _remote_path: &str,
        _local_path: &str,
        _offset: u64,
        _progress: Option<&dyn ProgressCallback>,
        _is_cancelled: Option<&dyn CancelCheck>,
    ) -> Result<u64, String> {
        self.downloads += 1;
        self.result.clone()
    }
    fn mkdir(&mut self, _path: &str) -> Result<(), String> {
        Ok(())
    }
    fn remove_file(&mut self, _path: &str) -> Result<(), String> {
        Ok(())
    }
    fn remove_dir(&mut self, _path: &str) -> Result<(), String> {
        Ok(())
    }
    fn rename(&mut self, _from: &str, _to: &str) -> Result<(), String> {
        Ok(())
    }
}

#[test]
fn run_transfer_follows_direction_and_outcome() {
    let recorder = Recorder { values: Mutex::new(Vec::new()) };
    let go = Cancelled(false);
    let mut client = EngineMock { uploads: 0, downloads: 0, result: Ok(100) };
    let up = TransferTask::new(1, "f".into(), "/l".into(), "/r".into(), "upload".into(), 300);
    let o = run_transfer(&mut client, &up, 200, &recorder, &go);
    assert!(matches!(o, TaskOutcome::Completed { transferred: 300 }));
    assert_eq!((client.uploads, client.downloads), (1, 0));
    assert_eq!(recorder.values.lock().unwrap().clone(), vec![(300, 300)]);

    let down = TransferTask::new(1, "f".into(), "/l".into(), "/r".into(), "download".into(), 300);
    client.result = Err("lost".into());
    match run_transfer(&mut client, &down, 0, &recorder, &go) {
        TaskOutcome::Failed { error } => assert_eq!(error, "lost"),
        other => panic!("unexpected {:?}", other),
    }
    assert_eq!(client.downloads, 1);

    let stop = Cancelled(true);
    assert!(matches!(run_transfer(&mut client, &up, 0, &recorder, &stop), TaskOutcome::Cancelled));
}

#[test]
fn conclude_removes_task_and_plans_record() {
    let mut reg = TaskRegistry::new();
    reg.insert("t1".to_string());
    reg.insert("t2".to_string());
    let p = conclude(&mut reg, "t1", TaskOutcome::Completed { transferred: 42 });
    assert_eq!(p.status, TransferStatus::Success);
    assert_eq!(p.transferred, 42);
    assert_eq!(p.error, None);
    assert_eq!(p.resume, ResumeAction::Delete);
    assert_eq!(reg.ids(), vec!["t2".to_string()]);

    let p = conclude(&mut reg, "t2", TaskOutcome::Failed { error: "x".into() });
    assert_eq!((p.status, p.transferred, p.error.clone(), p.resume), (TransferStatus::Failed, 0, Some("x".to_string()), ResumeAction::StartOver));
    assert!(reg.ids().is_empty());

    let p = conclude(&mut reg, "gone", TaskOutcome::Cancelled);
    assert_eq!((p.status, p.transferred, p.resume), (TransferStatus::Cancelled, 0, ResumeAction::Keep));
}

#[test]
fn chunks_are_written_back_to_back() {
    let mut c = TransferCounter::new(10, 100);
    let mut writes = Vec::new();
    for n in [3u64, 4, 5] {
        match c.on_chunk(n) {
            WriteStep::Chunk { write_at, position } => {
                writes.push(write_at);
                assert_eq!(position, write_at + n);
            }
            WriteStep::End => panic!("unexpected end"),
        }
    }
    assert_eq!(writes, vec![10, 13, 17]);
    assert_eq!(c.offset(), 22);
    assert_eq!(c.on_chunk(0), WriteStep::End);
}

#[test]
fn end_run_always_removes_the_task() {
    let mut reg = TaskRegistry::new();
    reg.insert("a".to_string());
    reg.insert("b".to_string());
    assert!(end_run(&mut reg, "a", RunEnd::NotRecorded).is_none());
    assert_eq!(reg.cancel_flag("a"), None);
    assert_eq!(reg.cancel_flag("b"), Some(false));
    let plan = end_run(&mut reg, "b", RunEnd::Recorded(TaskOutcome::Cancelled)).unwrap();
    assert_eq!(plan.status, TransferStatus::Cancelled);
    assert_eq!(plan.resume, ResumeAction::Keep);
    assert!(reg.ids().is_empty());
}
