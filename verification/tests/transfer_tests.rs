use zher_transfer::transfer::{
    parse_declared_total, status_is_success, total_size, Action, DownloadControl, DownloadProgress,
    Event, HeaderText, Phase, Transfer, TransferError,
};

fn ok_response(content_range: HeaderText, content_length: Option<u64>) -> Event {
    Event::Response { status: 200, status_text: "200 OK".to_string(), content_range, content_length }
}

fn active(id: u64, existing: u64, total: u64) -> Transfer {
    let mut transfer = Transfer::new(id, existing);
    let action = transfer.step(ok_response(HeaderText::Absent, Some(total)));
    assert_eq!(action, Some(Action::Begin { total }));
    transfer
}

/// Runs the events through a transfer and applies every write to `file`.
fn drive(transfer: &mut Transfer, file: &mut Vec<u8>, events: Vec<Event>) -> Vec<Action> {
    let mut actions = Vec::new();
    for event in events {
        let action = transfer.step(event).expect("event accepted");
        if let Action::Write { data, .. } = &action {
            file.extend_from_slice(data);
        }
        actions.push(action);
    }
    actions
}

fn chunks_of(content: &[u8], size: usize) -> Vec<Event> {
    content.chunks(size).map(|piece| Event::Chunk(piece.to_vec())).collect()
}

#[test]
fn new_transfer_is_starting() {
    let transfer = Transfer::new(9, 40);
    assert_eq!(
        transfer,
        Transfer { id: 9, phase: Phase::Starting, existing: 40, received: 40, total: 0, pending: None }
    );
    assert!(!transfer.wants_stream());
    assert!(!transfer.phase.terminal());
    assert!(!transfer.phase.controllable());
}

#[test]
fn range_header_names_the_staging_size() {
    assert_eq!(Transfer::new(1, 0).range_header(), None);
    assert_eq!(Transfer::new(1, 1).range_header(), Some("bytes=1-".to_string()));
    assert_eq!(Transfer::new(1, 123456).range_header(), Some("bytes=123456-".to_string()));
    assert_eq!(
        Transfer::new(1, u64::MAX).range_header(),
        Some("bytes=18446744073709551615-".to_string())
    );
}

#[test]
fn success_is_the_whole_2xx_range() {
    assert!(!status_is_success(199));
    assert!(status_is_success(200));
    assert!(status_is_success(206));
    assert!(status_is_success(299));
    assert!(!status_is_success(300));
    assert!(!status_is_success(404));
    assert!(!status_is_success(0));
}

#[test]
fn declared_total_is_read_after_the_slash() {
    assert_eq!(parse_declared_total("bytes 0-99/1234"), Some(1234));
    assert_eq!(parse_declared_total("bytes 100-199/200"), Some(200));
    assert_eq!(parse_declared_total("bytes */47022"), Some(47022));
    assert_eq!(parse_declared_total("bytes 0-99/*"), None);
    assert_eq!(parse_declared_total("bytes 0-99"), None);
    assert_eq!(parse_declared_total(""), None);
    assert_eq!(parse_declared_total("/"), None);
    assert_eq!(parse_declared_total("/5"), Some(5));
    assert_eq!(parse_declared_total("a/5/6"), Some(5));
    assert_eq!(parse_declared_total("a//6"), None);
    assert_eq!(parse_declared_total("bytes 0-99/ 100"), None);
    assert_eq!(parse_declared_total("x/18446744073709551616"), None);
}

#[test]
fn declared_total_agrees_with_split_and_parse() {
    for value in ["bytes 0-9/10", "bytes 0-9/", "/", "//", "1/2/3", "none", "a/+7", "a/-7", "a/7 "] {
        let expected = value.split('/').nth(1).and_then(|piece| piece.parse::<u64>().ok());
        assert_eq!(parse_declared_total(value), expected, "{}", value);
    }
}

#[test]
fn total_size_prefers_content_range() {
    let range = HeaderText::Text("bytes 100-199/200".to_string());
    assert_eq!(total_size(&range, Some(100), 100), Some(200));
    assert_eq!(total_size(&range, None, 0), Some(200));
}

#[test]
fn total_size_falls_back_to_what_is_there_plus_what_comes() {
    let unparsable = HeaderText::Text("bytes 100-199/*".to_string());
    assert_eq!(total_size(&unparsable, Some(100), 100), Some(200));
    assert_eq!(total_size(&unparsable, None, 100), Some(100));
    assert_eq!(total_size(&HeaderText::Unreadable, Some(7), 3), Some(10));
    assert_eq!(total_size(&HeaderText::Unreadable, Some(1), u64::MAX), None);
    assert_eq!(total_size(&unparsable, Some(u64::MAX), 1), None);
}

#[test]
fn total_size_without_content_range_is_content_length() {
    assert_eq!(total_size(&HeaderText::Absent, Some(5000), 0), Some(5000));
    assert_eq!(total_size(&HeaderText::Absent, Some(5000), 77), Some(5000));
    assert_eq!(total_size(&HeaderText::Absent, None, 77), Some(0));
    assert_eq!(total_size(&HeaderText::Absent, Some(u64::MAX), u64::MAX), Some(u64::MAX));
}

#[test]
fn good_response_starts_the_transfer() {
    let mut transfer = Transfer::new(3, 100);
    let action = transfer.step(ok_response(HeaderText::Text("bytes 100-999/1000".to_string()), Some(900)));
    assert_eq!(action, Some(Action::Begin { total: 1000 }));
    assert_eq!(transfer.phase, Phase::Active);
    assert_eq!(transfer.total, 1000);
    assert_eq!(transfer.received, 100);
    assert!(transfer.wants_stream());
    assert!(transfer.phase.controllable());
}

#[test]
fn bad_status_fails_the_transfer() {
    let mut transfer = Transfer::new(3, 0);
    let action = transfer.step(Event::Response {
        status: 404,
        status_text: "404 Not Found".to_string(),
        content_range: HeaderText::Absent,
        content_length: Some(9),
    });
    let error = TransferError::BadStatus("404 Not Found".to_string());
    assert_eq!(error.message(), "Download failed with status: 404 Not Found");
    assert_eq!(action, Some(Action::Fail { error }));
    assert_eq!(transfer.phase, Phase::Failed);
    assert!(transfer.phase.terminal());
}

#[test]
fn redirect_status_fails_the_transfer() {
    let mut transfer = Transfer::new(3, 0);
    let action = transfer.step(Event::Response {
        status: 304,
        status_text: "304 Not Modified".to_string(),
        content_range: HeaderText::Absent,
        content_length: None,
    });
    assert_eq!(action, Some(Action::Fail { error: TransferError::BadStatus("304 Not Modified".to_string()) }));
    assert_eq!(transfer.phase, Phase::Failed);
}

#[test]
fn failed_request_fails_the_transfer() {
    let mut transfer = Transfer::new(3, 0);
    let action = transfer.step(Event::IoFailed("connection refused".to_string()));
    assert_eq!(action, Some(Action::Fail { error: TransferError::Io("connection refused".to_string()) }));
    assert_eq!(transfer.phase, Phase::Failed);
}

#[test]
fn response_whose_total_does_not_fit_is_not_accepted() {
    let mut transfer = Transfer::new(3, u64::MAX);
    let before = transfer.clone();
    assert_eq!(transfer.step(ok_response(HeaderText::Unreadable, Some(1))), None);
    assert_eq!(transfer, before);
}

#[test]
fn starting_transfer_takes_no_signal_and_no_chunk() {
    let mut transfer = Transfer::new(3, 0);
    let before = transfer.clone();
    assert_eq!(transfer.step(Event::Signal(DownloadControl::Pause)), None);
    assert_eq!(transfer.step(Event::Signal(DownloadControl::Cancel)), None);
    assert_eq!(transfer.step(Event::ChannelClosed), None);
    assert_eq!(transfer.step(Event::Chunk(vec![1, 2, 3])), None);
    assert_eq!(transfer.step(Event::StreamEnded), None);
    assert_eq!(transfer.step(Event::Flushed), None);
    assert_eq!(transfer.step(Event::Renamed(true)), None);
    assert_eq!(transfer, before);
}

#[test]
fn chunks_are_written_and_counted() {
    let mut transfer = active(5, 0, 10);
    let action = transfer.step(Event::Chunk(vec![1, 2, 3, 4]));
    assert_eq!(
        action,
        Some(Action::Write {
            data: vec![1, 2, 3, 4],
            progress: DownloadProgress { id: 5, received: 4, total: 10 },
        })
    );
    let action = transfer.step(Event::Chunk(vec![5, 6]));
    assert_eq!(
        action,
        Some(Action::Write { data: vec![5, 6], progress: DownloadProgress { id: 5, received: 6, total: 10 } })
    );
    assert_eq!(transfer.received, 6);
    assert_eq!(transfer.phase, Phase::Active);
}

#[test]
fn resumed_transfer_counts_from_the_staging_size() {
    let mut transfer = active(5, 100, 110);
    let action = transfer.step(Event::Chunk(vec![0; 10]));
    assert_eq!(
        action,
        Some(Action::Write { data: vec![0; 10], progress: DownloadProgress { id: 5, received: 110, total: 110 } })
    );
}

#[test]
fn progress_grows_with_every_chunk() {
    let mut transfer = active(5, 0, 0);
    let mut last = 0;
    for size in [1usize, 5, 2, 9] {
        match transfer.step(Event::Chunk(vec![7; size])) {
            Some(Action::Write { progress, .. }) => {
                assert!(progress.received > last);
                assert_eq!(progress.received, last + size as u64);
                assert_eq!(progress.total, 0);
                last = progress.received;
            }
            other => panic!("unexpected {:?}", other),
        }
    }
}

#[test]
fn chunk_that_overflows_the_count_is_not_accepted() {
    let mut transfer = active(5, u64::MAX - 1, 0);
    let before = transfer.clone();
    assert_eq!(transfer.step(Event::Chunk(vec![1, 2])), None);
    assert_eq!(transfer, before);
    assert!(transfer.step(Event::Chunk(vec![1])).is_some());
    assert_eq!(transfer.received, u64::MAX);
}

#[test]
fn pause_and_resume_are_announced() {
    let mut transfer = active(5, 0, 10);
    assert_eq!(transfer.step(Event::Signal(DownloadControl::Pause)), Some(Action::EmitPaused));
    assert_eq!(transfer.phase, Phase::Paused);
    assert!(!transfer.wants_stream());
    assert!(transfer.phase.controllable());
    assert_eq!(transfer.step(Event::Signal(DownloadControl::Pause)), Some(Action::EmitPaused));
    assert_eq!(transfer.phase, Phase::Paused);
    assert_eq!(transfer.step(Event::Signal(DownloadControl::Resume)), Some(Action::EmitResumed));
    assert_eq!(transfer.phase, Phase::Active);
    assert!(transfer.wants_stream());
    assert_eq!(transfer.step(Event::Signal(DownloadControl::Resume)), Some(Action::EmitResumed));
    assert_eq!(transfer.phase, Phase::Active);
}

#[test]
fn paused_transfer_takes_no_stream_event() {
    let mut transfer = active(5, 0, 10);
    transfer.step(Event::Signal(DownloadControl::Pause));
    let before = transfer.clone();
    assert_eq!(transfer.step(Event::Chunk(vec![1])), None);
    assert_eq!(transfer.step(Event::StreamEnded), None);
    assert_eq!(transfer.step(Event::StreamFailed("reset".to_string())), None);
    assert_eq!(transfer.step(Event::IoFailed("disk".to_string())), None);
    assert_eq!(transfer, before);
}

#[test]
fn cancel_flushes_and_reports_cancellation() {
    let mut transfer = active(5, 0, 10);
    transfer.step(Event::Chunk(vec![1, 2, 3]));
    assert_eq!(transfer.step(Event::Signal(DownloadControl::Cancel)), Some(Action::Flush));
    assert_eq!(transfer.phase, Phase::Flushing);
    assert!(!transfer.phase.controllable());
    assert_eq!(transfer.step(Event::Signal(DownloadControl::Pause)), None);
    let action = transfer.step(Event::Flushed);
    assert_eq!(action, Some(Action::Fail { error: TransferError::Cancelled }));
    assert_eq!(TransferError::Cancelled.message(), "Download cancelled");
    assert_eq!(transfer.phase, Phase::Cancelled);
    assert_eq!(transfer.received, 3);
    assert_eq!(transfer.pending, None);
}

#[test]
fn cancel_while_paused_is_a_cancellation_too() {
    let mut transfer = active(5, 0, 10);
    transfer.step(Event::Signal(DownloadControl::Pause));
    assert_eq!(transfer.step(Event::Signal(DownloadControl::Cancel)), Some(Action::Flush));
    assert_eq!(transfer.step(Event::Flushed), Some(Action::Fail { error: TransferError::Cancelled }));
    assert_eq!(transfer.phase, Phase::Cancelled);
}

#[test]
fn closed_channel_counts_as_cancel() {
    let mut transfer = active(5, 0, 10);
    assert_eq!(transfer.step(Event::ChannelClosed), Some(Action::Flush));
    assert_eq!(transfer.step(Event::Flushed), Some(Action::Fail { error: TransferError::Cancelled }));
    assert_eq!(transfer.phase, Phase::Cancelled);

    let mut paused = active(6, 0, 10);
    paused.step(Event::Signal(DownloadControl::Pause));
    assert_eq!(paused.step(Event::ChannelClosed), Some(Action::Flush));
    assert_eq!(paused.step(Event::Flushed), Some(Action::Fail { error: TransferError::Cancelled }));
    assert_eq!(paused.phase, Phase::Cancelled);
}

#[test]
fn stream_end_flushes_renames_and_completes() {
    let mut transfer = active(5, 0, 3);
    transfer.step(Event::Chunk(vec![1, 2, 3]));
    assert_eq!(transfer.step(Event::StreamEnded), Some(Action::Flush));
    assert_eq!(transfer.phase, Phase::Flushing);
    assert_eq!(transfer.step(Event::Flushed), Some(Action::Rename));
    assert_eq!(transfer.phase, Phase::Saving);
    assert_eq!(transfer.step(Event::Renamed(true)), Some(Action::Complete { size: 3 }));
    assert_eq!(transfer.phase, Phase::Completed);
    assert!(transfer.phase.terminal());
}

#[test]
fn completed_size_is_the_bytes_in_the_file() {
    let mut transfer = active(5, 0, 1000);
    transfer.step(Event::Chunk(vec![1, 2, 3]));
    transfer.step(Event::StreamEnded);
    transfer.step(Event::Flushed);
    assert_eq!(transfer.step(Event::Renamed(true)), Some(Action::Complete { size: 3 }));

    let mut unknown = active(6, 40, 0);
    unknown.step(Event::Chunk(vec![0; 60]));
    unknown.step(Event::StreamEnded);
    unknown.step(Event::Flushed);
    assert_eq!(unknown.step(Event::Renamed(true)), Some(Action::Complete { size: 100 }));
}

#[test]
fn failed_rename_is_a_save_error() {
    let mut transfer = active(5, 0, 3);
    transfer.step(Event::StreamEnded);
    transfer.step(Event::Flushed);
    let action = transfer.step(Event::Renamed(false));
    assert_eq!(action, Some(Action::Fail { error: TransferError::SaveFailed }));
    assert_eq!(TransferError::SaveFailed.message(), "Failed to save file");
    assert_eq!(transfer.phase, Phase::Failed);
}

#[test]
fn stream_error_flushes_then_fails() {
    let mut transfer = active(5, 0, 3);
    assert_eq!(transfer.step(Event::StreamFailed("connection reset".to_string())), Some(Action::Flush));
    assert_eq!(transfer.phase, Phase::Flushing);
    let action = transfer.step(Event::Flushed);
    let error = TransferError::Io("connection reset".to_string());
    assert_eq!(error.message(), "connection reset");
    assert_eq!(action, Some(Action::Fail { error }));
    assert_eq!(transfer.phase, Phase::Failed);
}

#[test]
fn write_error_flushes_then_fails() {
    let mut transfer = active(5, 0, 3);
    transfer.step(Event::Chunk(vec![1]));
    assert_eq!(transfer.step(Event::IoFailed("disk full".to_string())), Some(Action::Flush));
    assert_eq!(transfer.phase, Phase::Flushing);
    let action = transfer.step(Event::Flushed);
    assert_eq!(action, Some(Action::Fail { error: TransferError::Io("disk full".to_string()) }));
    assert_eq!(transfer.phase, Phase::Failed);
    assert_eq!(transfer.pending, None);
}

#[test]
fn flush_error_wins_over_what_was_pending() {
    for event in [
        Event::StreamEnded,
        Event::Signal(DownloadControl::Cancel),
        Event::StreamFailed("x".to_string()),
        Event::IoFailed("y".to_string()),
    ] {
        let mut transfer = active(5, 0, 3);
        assert_eq!(transfer.step(event), Some(Action::Flush));
        let action = transfer.step(Event::FlushFailed("io error".to_string()));
        assert_eq!(action, Some(Action::Fail { error: TransferError::Io("io error".to_string()) }));
        assert_eq!(transfer.phase, Phase::Failed);
        assert_eq!(transfer.pending, None);
    }
}

#[test]
fn ended_transfer_takes_nothing() {
    let mut completed = active(5, 0, 0);
    completed.step(Event::StreamEnded);
    completed.step(Event::Flushed);
    completed.step(Event::Renamed(true));
    let mut cancelled = active(6, 0, 0);
    cancelled.step(Event::Signal(DownloadControl::Cancel));
    cancelled.step(Event::Flushed);
    let mut failed = Transfer::new(7, 0);
    failed.step(Event::IoFailed("x".to_string()));
    for mut transfer in [completed, cancelled, failed] {
        assert!(transfer.phase.terminal());
        let before = transfer.clone();
        for event in [
            ok_response(HeaderText::Absent, None),
            Event::IoFailed("x".to_string()),
            Event::Signal(DownloadControl::Pause),
            Event::Signal(DownloadControl::Resume),
            Event::Signal(DownloadControl::Cancel),
            Event::ChannelClosed,
            Event::Chunk(vec![1]),
            Event::StreamFailed("x".to_string()),
            Event::StreamEnded,
            Event::Flushed,
            Event::FlushFailed("x".to_string()),
            Event::Renamed(true),
        ] {
            assert_eq!(transfer.step(event), None);
        }
        assert_eq!(transfer, before);
    }
}

#[test]
fn exactly_one_terminal_notification() {
    let mut transfer = Transfer::new(1, 0);
    let mut file = Vec::new();
    let actions = drive(
        &mut transfer,
        &mut file,
        vec![
            ok_response(HeaderText::Absent, Some(4)),
            Event::Chunk(vec![1, 2]),
            Event::Signal(DownloadControl::Pause),
            Event::Signal(DownloadControl::Resume),
            Event::Chunk(vec![3, 4]),
            Event::StreamEnded,
            Event::Flushed,
            Event::Renamed(true),
        ],
    );
    let finals = actions
        .iter()
        .filter(|action| matches!(action, Action::Complete { .. } | Action::Fail { .. }))
        .count();
    assert_eq!(finals, 1);
    assert_eq!(actions.last(), Some(&Action::Complete { size: 4 }));
}

#[test]
fn pause_and_resume_lose_and_repeat_no_byte() {
    let content: Vec<u8> = (0..200u32).map(|n| (n * 7 % 251) as u8).collect();

    let mut plain = active(1, 0, 200);
    let mut plain_file = Vec::new();
    let mut events = chunks_of(&content, 32);
    events.push(Event::StreamEnded);
    drive(&mut plain, &mut plain_file, events);

    let mut paused = active(2, 0, 200);
    let mut paused_file = Vec::new();
    let mut events = Vec::new();
    for (i, chunk) in chunks_of(&content, 32).into_iter().enumerate() {
        events.push(chunk);
        if i % 2 == 0 {
            events.push(Event::Signal(DownloadControl::Pause));
            events.push(Event::Signal(DownloadControl::Resume));
        }
    }
    events.push(Event::StreamEnded);
    drive(&mut paused, &mut paused_file, events);

    assert_eq!(plain_file, content);
    assert_eq!(paused_file, content);
    assert_eq!(paused.received, plain.received);
    assert_eq!(paused.phase, plain.phase);
}

#[test]
fn cancelled_download_is_resumed_where_it_stopped() {
    let content: Vec<u8> = (0..100u8).collect();
    let mut staging: Vec<u8> = Vec::new();

    let mut first = Transfer::new(1, staging.len() as u64);
    assert_eq!(first.range_header(), None);
    let mut events = vec![ok_response(HeaderText::Absent, Some(100))];
    events.extend(chunks_of(&content[..48], 16));
    events.push(Event::Signal(DownloadControl::Cancel));
    events.push(Event::Flushed);
    let actions = drive(&mut first, &mut staging, events);
    assert_eq!(actions.last(), Some(&Action::Fail { error: TransferError::Cancelled }));
    assert_eq!(first.phase, Phase::Cancelled);
    assert_eq!(staging, &content[..48]);

    let mut second = Transfer::new(2, staging.len() as u64);
    assert_eq!(second.range_header(), Some("bytes=48-".to_string()));
    let mut events = vec![Event::Response {
        status: 206,
        status_text: "206 Partial Content".to_string(),
        content_range: HeaderText::Text("bytes 48-99/100".to_string()),
        content_length: Some(52),
    }];
    events.extend(chunks_of(&content[48..], 16));
    events.push(Event::StreamEnded);
    events.push(Event::Flushed);
    events.push(Event::Renamed(true));
    let actions = drive(&mut second, &mut staging, events);
    assert_eq!(actions[0], Action::Begin { total: 100 });
    assert_eq!(actions.last(), Some(&Action::Complete { size: 100 }));
    assert_eq!(second.received, 100);
    assert_eq!(staging, content);
}

#[test]
fn actions_name_their_notifications() {
    assert_eq!(Action::Begin { total: 1 }.event_name(), Some("download-started"));
    assert_eq!(Action::EmitPaused.event_name(), Some("download-paused"));
    assert_eq!(Action::EmitResumed.event_name(), Some("download-resumed"));
    let write = Action::Write { data: vec![1], progress: DownloadProgress { id: 1, received: 1, total: 1 } };
    assert_eq!(write.event_name(), Some("download-progress"));
    assert_eq!(Action::Flush.event_name(), None);
    assert_eq!(Action::Rename.event_name(), None);
    assert_eq!(Action::Complete { size: 1 }.event_name(), Some("download-completed"));
    assert_eq!(Action::Fail { error: TransferError::Cancelled }.event_name(), Some("download-failed"));
}
