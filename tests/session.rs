use drsplayer::broadcast::{pacing_delay_ms, playtime_ms, split_chunks, Broadcast, CHUNK_SAMPLES};
use drsplayer::frame::unpack_frame;
use drsplayer::message::{drain_step, frame_line, Coalition, MsgType, ReadOutcome};
use drsplayer::player::{find_station, Error, Player, STATION_FREQ};
use drsplayer::playlist::{first_source, has_wav_extension, next_source, playable_sources};
use drsplayer::worker::{Poll, WorkerControl, WorkerState};

#[test]
fn packet_ids_start_at_one_without_gaps() {
    let guid = drsplayer::identity::new_session_id();
    let mut b = Broadcast::new(guid, 255_000_000);
    let mut ids = Vec::new();
    for source in 0..3 {
        b.begin_source();
        for k in 0..4u8 {
            let frame = b.next_frame(&[source, k]).unwrap();
            ids.push(unpack_frame(&frame).unwrap().packet_id);
        }
    }
    let expected: Vec<u64> = (1..=12).collect();
    assert_eq!(ids, expected);
}

#[test]
fn failed_frame_keeps_id() {
    let mut b = Broadcast::new("short".to_string(), 1);
    assert!(b.next_frame(&[1]).is_err());
    assert_eq!(b.next_id(), 1);
    assert_eq!(b.source_bytes(), 0);
}

#[test]
fn pacing_formula() {
    assert_eq!(playtime_ms(0), 0);
    assert_eq!(playtime_ms(4096), 1000);
    assert_eq!(playtime_ms(80), 19);
    assert_eq!(playtime_ms(u64::MAX), ((u64::MAX as u128) * 8000 / 32768) as u64);
    assert_eq!(pacing_delay_ms(4096, 400), 600);
    assert_eq!(pacing_delay_ms(4096, 1000), 0);
    assert_eq!(pacing_delay_ms(4096, 5000), 0);
}

#[test]
fn one_second_source_paces_to_about_a_second() {
    let samples = vec![0i16; 24000];
    let chunks = split_chunks(&samples);
    assert_eq!(chunks.len(), 50);
    let mut b = Broadcast::new("AAECAwQFBgcICQoLDA0ODw".to_string(), 255_000_000);
    b.begin_source();
    for _ in &chunks {
        // 20 ms at 32 kbit/s
        b.next_frame(&[0u8; 80]).unwrap();
    }
    let total = b.delay_ms(0);
    assert!(total >= 950 && total <= 1000, "{}", total);
    assert_eq!(b.next_id(), 51);
}

#[test]
fn chunks_drop_partial_tail() {
    let samples: Vec<i16> = (0..1000).map(|i| i as i16).collect();
    let chunks = split_chunks(&samples);
    assert_eq!(chunks.len(), 2);
    assert_eq!(chunks[0].len(), CHUNK_SAMPLES);
    assert_eq!(chunks[1][0], 480);
    assert_eq!(chunks[1][479], 959);
    assert!(split_chunks(&samples[..479]).is_empty());
    assert!(split_chunks(&[]).is_empty());
}

#[test]
fn looping_restarts_at_first_source() {
    let mut order = Vec::new();
    let mut cur = first_source(3);
    for _ in 0..7 {
        let c = cur.unwrap();
        order.push(c);
        cur = next_source(c, 3, true);
    }
    assert_eq!(order, vec![0, 1, 2, 0, 1, 2, 0]);
}

#[test]
fn single_pass_ends_after_last_source() {
    let mut order = Vec::new();
    let mut cur = first_source(3);
    while let Some(c) = cur {
        order.push(c);
        cur = next_source(c, 3, false);
    }
    assert_eq!(order, vec![0, 1, 2]);
    assert_eq!(first_source(0), None);
    assert_eq!(next_source(0, 1, true), Some(0));
}

#[test]
fn unsupported_files_are_skipped_in_order() {
    let names: Vec<String> = ["a.wav", "notes.txt", "b.wav", "broken.wav", ".wav", "c.wav", "wav"]
        .iter()
        .map(|s| s.to_string())
        .collect();
    let readable = vec![true, true, true, false, true, true, true];
    assert_eq!(playable_sources(&names, &readable), vec![0, 2, 5]);
    assert!(playable_sources(&Vec::new(), &Vec::new()).is_empty());
}

#[test]
fn wav_extension() {
    assert!(has_wav_extension("x.wav"));
    assert!(has_wav_extension("..wav"));
    assert!(!has_wav_extension(".wav"));
    assert!(!has_wav_extension("x.WAV"));
    assert!(!has_wav_extension("x.wave"));
    assert!(!has_wav_extension(""));
}

#[test]
fn pause_then_unpause_resumes() {
    let mut w = WorkerControl::new();
    assert_eq!(w.poll(), Poll::Wait);
    w.start();
    assert_eq!(w.poll(), Poll::Proceed);
    w.pause();
    assert_eq!(w.state, WorkerState::Paused);
    assert_eq!(w.poll(), Poll::Wait);
    assert!(!w.should_stop());
    w.unpause();
    assert_eq!(w.state, WorkerState::Running);
    assert_eq!(w.poll(), Poll::Proceed);
}

#[test]
fn stop_is_seen_at_next_poll_and_final() {
    let mut w = WorkerControl::new();
    w.start();
    w.pause();
    w.stop();
    assert!(w.should_stop());
    assert_eq!(w.poll(), Poll::Finish);
    w.unpause();
    w.start();
    assert!(w.should_stop());
    w.exit();
    assert_eq!(w.state, WorkerState::Stopped);
    w.stop();
    assert_eq!(w.state, WorkerState::Stopped);
}

#[test]
fn message_codes() {
    assert_eq!(MsgType::Update.serialize(), 1);
    assert_eq!(MsgType::Sync.serialize(), 2);
    assert_eq!(Coalition::Red.serialize(), 1);
    assert_eq!(Coalition::Blue.serialize(), 2);
    assert_eq!(MsgType::deserialize(2), Some(MsgType::Sync));
    assert_eq!(MsgType::deserialize(1), Some(MsgType::Update));
    assert_eq!(MsgType::deserialize(3), None);
    assert_eq!(Coalition::deserialize(2), Some(Coalition::Blue));
    assert_eq!(Coalition::deserialize(0), None);
}

#[test]
fn message_line_ends_with_newline() {
    assert_eq!(frame_line(b"{}"), b"{}\n".to_vec());
    assert_eq!(frame_line(b""), b"\n".to_vec());
}

#[test]
fn drain_decisions() {
    let s = drain_step(ReadOutcome::Data(0), false);
    assert!(s.exit && !s.report);
    let s = drain_step(ReadOutcome::Data(12), false);
    assert!(!s.exit && !s.report);
    let s = drain_step(ReadOutcome::TimedOut, false);
    assert!(!s.exit && !s.report);
    let s = drain_step(ReadOutcome::Failed, false);
    assert!(!s.exit && s.report);
    let s = drain_step(ReadOutcome::TimedOut, true);
    assert!(s.exit);
}

#[test]
fn no_station_found() {
    let names: Vec<String> = vec!["Tower".to_string(), "SRS player".to_string()];
    assert!(matches!(find_station(&names), Err(Error::NoStationFound)));
    assert!(matches!(Player::create(&names), Err(Error::NoStationFound)));
    assert!(matches!(Player::create(&Vec::new()), Err(Error::NoStationFound)));
}

#[test]
fn first_matching_station_is_chosen() {
    let names: Vec<String> = ["Tower", "SRS Player", "SRS Player"].iter().map(|s| s.to_string()).collect();
    assert_eq!(find_station(&names).unwrap(), 1);
    let (p, i) = Player::create(&names).unwrap();
    assert_eq!(i, 1);
    assert_eq!(p.name, "SRS Radio");
    assert_eq!(p.freq, STATION_FREQ);
    assert_eq!(p.sguid.len(), 22);
    assert!(!p.started());
}

#[test]
fn second_start_is_a_no_op() {
    let mut p = Player::new("DCS Radio Station", 251_000_000);
    assert!(p.begin());
    assert!(p.started());
    assert!(!p.begin());
    assert_eq!(p.client_name(), "ATIS DCS Radio Station");
}

#[test]
fn pause_without_session_is_a_no_op() {
    let mut p = Player::new("Radio", 1);
    assert!(!p.pause());
    assert!(!p.unpause());
    assert_eq!(p.session.state, WorkerState::Created);
    assert!(p.begin());
    assert!(!p.unpause());
    assert!(p.pause());
    assert!(!p.pause());
    assert!(p.unpause());
    assert_eq!(p.session.state, WorkerState::Running);
    assert!(p.stop());
    assert!(!p.stop());
    assert!(!p.pause());
    assert!(p.session.should_stop());
}

#[test]
fn error_texts() {
    assert_eq!(Error::NoStationFound.message(), "Error: No SRS station found in mission");
    assert_eq!(
        Error::Undefined("DCS".to_string()).message(),
        "Error: Trying to access undefined lua global or table key: DCS"
    );
    assert_eq!(
        Error::Tcp("refused".to_string()).message(),
        "Error: Error establishing TCP connection to SRS  -> refused"
    );
    assert_eq!(Error::Wav(String::new()).description(), "Error reading WAV file");
}
