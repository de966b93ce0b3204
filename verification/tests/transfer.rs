use littlejohn::download::{Download, DownloadStatus};
use littlejohn::session::AppMessage;
use littlejohn::download::{find_download, ids_ascending};
use littlejohn::transfer::{
    start_download, transfer_rate, DownloadTracker, TransferEvent, TransferPhase,
};

const MS: u64 = 1_000_000;

#[test]
fn progress_bytes_never_go_down() {
    let mut tracker = DownloadTracker::new(3);
    assert!(tracker.step(TransferEvent::Opened { content_length: Some(1000), now: 0 }).is_none());
    let mut last = 0;
    let mut reports = 0;
    for i in 1..=40u64 {
        if let Some(msg) = tracker.step(TransferEvent::Chunk { len: 25, now: i * 30 * MS }) {
            match msg {
                AppMessage::DownloadProgress { id, downloaded, total, .. } => {
                    assert_eq!(id, 3);
                    assert_eq!(total, 1000);
                    assert!(downloaded >= last);
                    last = downloaded;
                    reports += 1;
                }
                other => panic!("unexpected message {:?}", other),
            }
        }
    }
    assert_eq!(reports, 10);
    assert_eq!(last, 1000);
    assert_eq!(tracker.downloaded, 1000);
}

#[test]
fn reports_come_at_most_once_per_interval() {
    let mut tracker = DownloadTracker::new(0);
    tracker.step(TransferEvent::Opened { content_length: None, now: 1_000 * MS });
    assert!(tracker.step(TransferEvent::Chunk { len: 10, now: 1_050 * MS }).is_none());
    assert!(tracker.step(TransferEvent::Chunk { len: 10, now: 1_099 * MS }).is_none());
    let msg = tracker.step(TransferEvent::Chunk { len: 10, now: 1_100 * MS });
    match msg {
        Some(AppMessage::DownloadProgress { downloaded, total, speed, .. }) => {
            assert_eq!(downloaded, 30);
            assert_eq!(total, 0);
            assert_eq!(speed, 300);
        }
        other => panic!("unexpected message {:?}", other),
    }
    assert!(tracker.step(TransferEvent::Chunk { len: 10, now: 1_199 * MS }).is_none());
    let msg = tracker.step(TransferEvent::Chunk { len: 1_000_000, now: 1_600 * MS });
    match msg {
        Some(AppMessage::DownloadProgress { downloaded, speed, .. }) => {
            assert_eq!(downloaded, 1_000_040);
            assert_eq!(speed, 2_000_020);
        }
        other => panic!("unexpected message {:?}", other),
    }
}

#[test]
fn rate_is_bytes_per_second_since_the_last_report() {
    assert_eq!(transfer_rate(0, 100 * MS), 0);
    assert_eq!(transfer_rate(1, 100 * MS), 10);
    assert_eq!(transfer_rate(1024, 1_000 * MS), 1024);
    assert_eq!(transfer_rate(1000, 3_000 * MS), 333);
    assert_eq!(transfer_rate(5, 1), 5_000_000_000);
    assert_eq!(transfer_rate(u64::MAX, 1), u64::MAX);
    assert_eq!(transfer_rate(u64::MAX, 1_000 * MS), u64::MAX);
    assert_eq!(transfer_rate(u64::MAX, 2_000 * MS), u64::MAX / 2);
}

#[test]
fn completion_is_reported_once() {
    let mut tracker = DownloadTracker::new(1);
    tracker.step(TransferEvent::Opened { content_length: Some(4), now: 0 });
    tracker.step(TransferEvent::Chunk { len: 4, now: 10 * MS });
    assert!(matches!(tracker.step(TransferEvent::Finished), Some(AppMessage::DownloadComplete(1))));
    assert!(tracker.is_done());
    assert!(tracker.step(TransferEvent::Finished).is_none());
    assert!(tracker.step(TransferEvent::Chunk { len: 4, now: 500 * MS }).is_none());
    assert!(tracker.step(TransferEvent::Failed("late".to_string())).is_none());
    assert_eq!(tracker.downloaded, 4);
}

#[test]
fn failure_ends_the_transfer_at_once() {
    let mut tracker = DownloadTracker::new(2);
    match tracker.step(TransferEvent::Failed("connection refused".to_string())) {
        Some(AppMessage::DownloadFailed(2, why)) => assert_eq!(why, "connection refused"),
        other => panic!("unexpected message {:?}", other),
    }
    assert!(tracker.is_done());
    assert!(tracker.step(TransferEvent::Opened { content_length: None, now: 0 }).is_none());

    let mut tracker = DownloadTracker::new(2);
    tracker.step(TransferEvent::Opened { content_length: Some(9), now: 0 });
    tracker.step(TransferEvent::Chunk { len: 3, now: 5 * MS });
    match tracker.step(TransferEvent::Failed("disk full".to_string())) {
        Some(AppMessage::DownloadFailed(2, why)) => assert_eq!(why, "disk full"),
        other => panic!("unexpected message {:?}", other),
    }
    assert!(tracker.step(TransferEvent::Finished).is_none());
}

#[test]
fn resource_without_content_length_reports_zero_total_and_completes() {
    let mut tracker = DownloadTracker::new(0);
    assert!(tracker.step(TransferEvent::Opened { content_length: None, now: 0 }).is_none());
    assert_eq!(tracker.total, 0);
    let mut seen = Vec::new();
    for i in 1..=5u64 {
        if let Some(AppMessage::DownloadProgress { downloaded, total, .. }) =
            tracker.step(TransferEvent::Chunk { len: 100, now: i * 100 * MS })
        {
            assert_eq!(total, 0);
            seen.push(downloaded);
        }
    }
    assert_eq!(seen, vec![100, 200, 300, 400, 500]);
    assert!(matches!(tracker.step(TransferEvent::Finished), Some(AppMessage::DownloadComplete(0))));
}

#[test]
fn resource_with_content_length_zero_reports_zero_total_and_completes() {
    let mut tracker = DownloadTracker::new(4);
    tracker.step(TransferEvent::Opened { content_length: Some(0), now: 7 });
    assert_eq!(tracker.total, 0);
    assert_eq!(tracker.phase, TransferPhase::Copying);
    match tracker.step(TransferEvent::Chunk { len: 2048, now: 7 + 250 * MS }) {
        Some(AppMessage::DownloadProgress { id, downloaded, total, speed }) => {
            assert_eq!((id, downloaded, total, speed), (4, 2048, 0, 8192));
        }
        other => panic!("unexpected message {:?}", other),
    }
    assert!(matches!(tracker.step(TransferEvent::Finished), Some(AppMessage::DownloadComplete(4))));
}

#[test]
fn empty_body_still_completes() {
    let mut tracker = DownloadTracker::new(0);
    tracker.step(TransferEvent::Opened { content_length: Some(0), now: 0 });
    assert!(matches!(tracker.step(TransferEvent::Finished), Some(AppMessage::DownloadComplete(0))));
}

#[test]
fn a_clock_that_goes_back_reports_nothing() {
    let mut tracker = DownloadTracker::new(0);
    tracker.step(TransferEvent::Opened { content_length: None, now: 900 * MS });
    assert!(tracker.step(TransferEvent::Chunk { len: 1, now: 100 * MS }).is_none());
    assert_eq!(tracker.downloaded, 1);
}

#[test]
fn the_byte_count_stops_at_the_largest_number() {
    let mut tracker = DownloadTracker::new(0);
    tracker.step(TransferEvent::Opened { content_length: None, now: 0 });
    tracker.step(TransferEvent::Chunk { len: u64::MAX - 1, now: 1 });
    tracker.step(TransferEvent::Chunk { len: 5, now: 2 });
    assert_eq!(tracker.downloaded, u64::MAX);
}

#[test]
fn status_kinds() {
    assert!(!DownloadStatus::Pending.terminal());
    assert!(!DownloadStatus::Downloading.terminal());
    assert!(DownloadStatus::Completed.terminal());
    assert!(DownloadStatus::Failed("x".to_string()).terminal());
    assert!(DownloadStatus::Cancelled.terminal());
    assert!(DownloadStatus::Pending.pending());
    assert!(!DownloadStatus::Downloading.pending());
}

#[test]
fn speed_text() {
    let d = Download {
        id: 9,
        url: "u".to_string(),
        filename: "f".to_string(),
        dest_path: "p".to_string(),
        status: DownloadStatus::Downloading,
        total_bytes: 10,
        downloaded_bytes: 5,
        speed: 1_572_864,
    };
    assert_eq!(d.speed_str(), "1.5 MB/s");
    let copy = d.clone();
    assert_eq!(copy.url, "u");
    assert_eq!(copy.id, 9);
    assert_eq!(copy.speed, 1_572_864);
    assert!(matches!(copy.status, DownloadStatus::Downloading));
}

fn download(id: u64) -> Download {
    Download {
        id,
        url: String::new(),
        filename: String::new(),
        dest_path: String::new(),
        status: DownloadStatus::Pending,
        total_bytes: 0,
        downloaded_bytes: 0,
        speed: 0,
    }
}

#[test]
fn downloads_are_found_by_identifier() {
    let list = vec![download(2), download(5), download(9)];
    assert_eq!(find_download(&list, 2), 0);
    assert_eq!(find_download(&list, 9), 2);
    assert_eq!(find_download(&list, 3), 3);
    assert_eq!(find_download(&Vec::new(), 0), 0);
    assert!(ids_ascending(&list, 10));
    assert!(!ids_ascending(&list, 9));
    assert!(ids_ascending(&Vec::new(), 0));
    assert!(!ids_ascending(&vec![download(5), download(5)], 10));
    assert!(!ids_ascending(&vec![download(5), download(2)], 10));
    assert_eq!(find_download(&vec![download(5), download(5)], 5), 0);
}

#[test]
fn a_whole_transfer_as_the_session_hears_it() {
    let sent = start_download(
        7,
        vec![
            TransferEvent::Opened { content_length: Some(300), now: 0 },
            TransferEvent::Chunk { len: 100, now: 50 * MS },
            TransferEvent::Chunk { len: 100, now: 100 * MS },
            TransferEvent::Chunk { len: 100, now: 250 * MS },
            TransferEvent::Finished,
            TransferEvent::Chunk { len: 100, now: 900 * MS },
            TransferEvent::Finished,
        ],
    );
    assert_eq!(sent.len(), 3);
    assert!(matches!(sent[0], AppMessage::DownloadProgress { id: 7, downloaded: 200, total: 300, speed: 2000 }));
    assert!(matches!(sent[1], AppMessage::DownloadProgress { id: 7, downloaded: 300, total: 300, speed: 666 }));
    assert!(matches!(sent[2], AppMessage::DownloadComplete(7)));
}

#[test]
fn a_transfer_without_a_declared_length_as_the_session_hears_it() {
    for content_length in [None, Some(0)] {
        let sent = start_download(
            1,
            vec![
                TransferEvent::Opened { content_length, now: 5 },
                TransferEvent::Chunk { len: 10, now: 5 + 100 * MS },
                TransferEvent::Chunk { len: 20, now: 5 + 200 * MS },
                TransferEvent::Finished,
            ],
        );
        assert_eq!(sent.len(), 3);
        assert!(matches!(sent[0], AppMessage::DownloadProgress { id: 1, downloaded: 10, total: 0, .. }));
        assert!(matches!(sent[1], AppMessage::DownloadProgress { id: 1, downloaded: 30, total: 0, .. }));
        assert!(matches!(sent[2], AppMessage::DownloadComplete(1)));
    }
    let sent = start_download(1, vec![TransferEvent::Opened { content_length: None, now: 0 }, TransferEvent::Finished]);
    assert_eq!(sent.len(), 1);
    assert!(matches!(sent[0], AppMessage::DownloadComplete(1)));
}

#[test]
fn a_failed_transfer_as_the_session_hears_it() {
    let sent = start_download(
        2,
        vec![
            TransferEvent::Opened { content_length: Some(9), now: 0 },
            TransferEvent::Chunk { len: 3, now: 200 * MS },
            TransferEvent::Failed("connection reset".to_string()),
            TransferEvent::Finished,
            TransferEvent::Failed("again".to_string()),
        ],
    );
    assert_eq!(sent.len(), 2);
    assert!(matches!(sent[0], AppMessage::DownloadProgress { id: 2, downloaded: 3, total: 9, speed: 15 }));
    match &sent[1] {
        AppMessage::DownloadFailed(2, why) => assert_eq!(why, "connection reset"),
        other => panic!("unexpected message {:?}", other),
    }
    assert!(start_download(2, Vec::new()).is_empty());
    let sent = start_download(2, vec![TransferEvent::Failed("refused".to_string())]);
    assert!(matches!(sent[0], AppMessage::DownloadFailed(2, _)));
    assert_eq!(sent.len(), 1);
}
