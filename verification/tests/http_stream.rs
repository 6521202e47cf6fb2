use mqttaudio::cache::http_stream::{
    progress, read_len, seek_target, seek_wait_bytes, wait_step, HttpStreamError, SeekError,
    SeekRequest, WaitStep,
};

#[test]
fn seek_targets() {
    assert_eq!(seek_target(SeekRequest::Start(7), None, 3), Ok(7));
    assert_eq!(seek_target(SeekRequest::Current(-2), None, 3), Ok(1));
    assert_eq!(seek_target(SeekRequest::Current(-4), None, 3), Err(SeekError::Negative));
    assert_eq!(seek_target(SeekRequest::End(-3), Some(10), 0), Ok(7));
    assert_eq!(seek_target(SeekRequest::End(0), None, 0), Err(SeekError::NoLength));
    assert_eq!(seek_target(SeekRequest::Start(u64::MAX), None, 0), Err(SeekError::Negative));
}

#[test]
fn reads_take_what_fits() {
    assert_eq!(read_len(3, 5, 0), 3);
    assert_eq!(read_len(3, 5, 3), 2);
    assert_eq!(read_len(3, 5, 5), 0);
    assert_eq!(read_len(3, 5, 9), 0);
}

#[test]
fn waiting_for_bytes() {
    assert_eq!(wait_step(5, 2, 3, false, false), WaitStep::Ready);
    assert_eq!(wait_step(5, 2, 4, false, false), WaitStep::Wait);
    assert_eq!(wait_step(5, 2, 4, true, false), WaitStep::Ended);
    assert_eq!(wait_step(5, 2, 4, true, true), WaitStep::Failed);
    assert_eq!(seek_wait_bytes(10, 4), 6);
    assert_eq!(seek_wait_bytes(2, 4), 0);
}

#[test]
fn progress_reports_the_known_length() {
    assert_eq!(progress(50, Some(100)), (50, Some(100)));
    assert_eq!(progress(50, None), (50, None));
}

#[test]
fn stream_error_messages() {
    assert_eq!(HttpStreamError::Request("timeout".to_string()).message(), "HTTP request error: timeout");
    assert_eq!(HttpStreamError::Cancelled.message(), "Download cancelled");
    assert_eq!(HttpStreamError::Io("broken pipe".to_string()).message(), "I/O error: broken pipe");
}
