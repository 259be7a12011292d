use protonup::error::InstallError;
use protonup::download::{BodyEvent, Download, Progress};

#[test]
fn success_statuses_start_a_download() {
    assert_eq!(Download::begin(200, Some(10)), Ok(Download { total: 10, received: 0 }));
    assert_eq!(Download::begin(299, None), Ok(Download { total: 0, received: 0 }));
    assert_eq!(Download::begin(206, Some(0)), Ok(Download { total: 0, received: 0 }));
}

#[test]
fn other_statuses_fail_the_download() {
    assert_eq!(Download::begin(199, Some(10)), Err(InstallError::DownloadFailed));
    assert_eq!(Download::begin(300, Some(10)), Err(InstallError::DownloadFailed));
    assert_eq!(Download::begin(404, None), Err(InstallError::DownloadFailed));
    assert_eq!(Download::begin(500, None), Err(InstallError::DownloadFailed));
    assert_eq!(Download::begin(0, None), Err(InstallError::DownloadFailed));
}

#[test]
fn chunks_are_counted_and_reported() {
    let mut d = Download::begin(200, Some(200)).unwrap();
    assert_eq!(d.record(BodyEvent::Chunk { len: 50 }), Progress::Part { received: 50, total: 200 });
    assert_eq!(d.record(BodyEvent::Chunk { len: 0 }), Progress::Part { received: 50, total: 200 });
    assert_eq!(d.record(BodyEvent::Chunk { len: 150 }), Progress::Part { received: 200, total: 200 });
    assert_eq!(d.received, 200);
    assert_eq!(d.total, 200);
    assert_eq!(d.record(BodyEvent::End), Progress::Complete);
}

#[test]
fn unknown_size_reports_nothing_but_completion() {
    let mut d = Download::begin(200, None).unwrap();
    assert_eq!(d.record(BodyEvent::Chunk { len: 4096 }), Progress::Unknown);
    assert_eq!(d.record(BodyEvent::Chunk { len: 4096 }), Progress::Unknown);
    assert_eq!(d.received, 8192);
    assert_eq!(d.record(BodyEvent::End), Progress::Complete);
}

#[test]
fn more_than_announced_is_reported_as_the_whole() {
    let mut d = Download::begin(200, Some(10)).unwrap();
    assert_eq!(d.record(BodyEvent::Chunk { len: 15 }), Progress::Part { received: 10, total: 10 });
    assert_eq!(d.received, 15);
    let mut d = Download::begin(200, Some(4)).unwrap();
    assert_eq!(d.record(BodyEvent::Chunk { len: 3 }), Progress::Part { received: 3, total: 4 });
    assert_eq!(d.record(BodyEvent::Chunk { len: 2 }), Progress::Part { received: 4, total: 4 });
    assert_eq!(d.received, 5);
    assert_eq!(d.record(BodyEvent::Chunk { len: 7 }), Progress::Part { received: 4, total: 4 });
    assert_eq!(d.record(BodyEvent::End), Progress::Complete);
}

#[test]
fn reports_never_go_down() {
    let mut d = Download::begin(200, Some(100)).unwrap();
    let mut last = 0;
    for len in [0, 10, 0, 45, 44, 1, 30, 0] {
        match d.record(BodyEvent::Chunk { len }) {
            Progress::Part { received, total } => {
                assert!(received <= total);
                assert!(received >= last);
                assert_eq!(total, 100);
                last = received;
            }
            other => panic!("no part reported: {:?}", other),
        }
    }
    assert_eq!(last, 100);
}

#[test]
fn the_end_changes_no_count() {
    let mut d = Download::begin(200, Some(10)).unwrap();
    d.record(BodyEvent::Chunk { len: 4 });
    assert_eq!(d.record(BodyEvent::End), Progress::Complete);
    assert_eq!(d, Download { total: 10, received: 4 });
}
