//! The reconnect loop, the passthrough retry, and the cover-art download.

use mpdris2::art::{
    art_cache_path, art_track_info, u64_to_string, ArtDownload, ArtError, ArtSource, ArtStep,
};
use mpdris2::response::MpdResponse;
use mpdris2::retry::{
    passthrough_decision, run_reconnect, PassthroughStep, Reconnector, ReconnectLog,
};

fn resp(fields: &[(&str, &str)], binary: Option<Vec<u8>>) -> MpdResponse {
    MpdResponse {
        fields: fields
            .iter()
            .map(|(n, v)| (n.to_string(), v.to_string()))
            .collect(),
        binary,
    }
}

#[test]
fn reconnect_attempts_and_logs() {
    // Three failures, then success: four attempts, one loud log, two quiet.
    let run = run_reconnect(&vec![false, false, false, true]);
    assert!(run.succeeded);
    assert_eq!(run.attempts, 4);
    assert_eq!(run.first_failure_logs, 1);
    assert_eq!(run.quiet_logs, 2);
}

#[test]
fn reconnect_immediate_success() {
    let run = run_reconnect(&vec![true, false, true]);
    assert!(run.succeeded);
    assert_eq!(run.attempts, 1);
    assert_eq!(run.first_failure_logs, 0);
    assert_eq!(run.quiet_logs, 0);
}

#[test]
fn reconnect_never_gives_up_by_itself() {
    // The loop only stops when an attempt succeeds; with none in sight it
    // has consumed every outcome and is still going.
    let run = run_reconnect(&vec![false, false]);
    assert!(!run.succeeded);
    assert_eq!(run.attempts, 2);
    assert_eq!(run.first_failure_logs, 1);
    assert_eq!(run.quiet_logs, 1);
}

#[test]
fn reconnect_step_by_step() {
    let mut rec = Reconnector::new();
    assert_eq!(rec.on_attempt(false), Some(ReconnectLog::FirstFailure));
    assert_eq!(rec.on_attempt(false), Some(ReconnectLog::QuietRetry));
    assert_eq!(rec.on_attempt(true), None);
    assert!(rec.done);
    assert_eq!(rec.failures, 2);
}

#[test]
fn passthrough_retries_once_then_surfaces() {
    // First attempt fails: reconnect and retry; the retry succeeds and the
    // caller sees the result, not the first error.
    assert_eq!(
        passthrough_decision(true, false),
        PassthroughStep::ReconnectAndRetry
    );
    assert_eq!(passthrough_decision(false, true), PassthroughStep::Return);
    // Had the retry failed too, the error would surface.
    assert_eq!(passthrough_decision(false, false), PassthroughStep::Surface);
    assert_eq!(passthrough_decision(true, true), PassthroughStep::Return);
}

#[test]
fn art_offset_continuation_across_three_chunks() {
    let mut dl = ArtDownload::start("track.flac".to_string());
    assert_eq!(dl.command(), "readpicture \"track.flac\" 0");

    let c1 = vec![1u8; 4000];
    let c2 = vec![2u8; 4000];
    let c3 = vec![3u8; 2000];
    let r1 = dl.feed(&resp(
        &[("size", "10000"), ("binary", "4000")],
        Some(c1.clone()),
    ));
    assert_eq!(r1, Ok(ArtStep::Continue));
    assert_eq!(dl.command(), "readpicture \"track.flac\" 4000");
    let r2 = dl.feed(&resp(
        &[("size", "10000"), ("binary", "4000")],
        Some(c2.clone()),
    ));
    assert_eq!(r2, Ok(ArtStep::Continue));
    assert_eq!(dl.command(), "readpicture \"track.flac\" 8000");
    let r3 = dl.feed(&resp(
        &[("size", "10000"), ("binary", "2000")],
        Some(c3.clone()),
    ));
    assert_eq!(r3, Ok(ArtStep::Done));

    let data = dl.into_data();
    assert_eq!(data.len(), 10000);
    let mut expected = c1;
    expected.extend_from_slice(&c2);
    expected.extend_from_slice(&c3);
    assert_eq!(data, expected);
}

#[test]
fn art_falls_back_to_folder_then_gives_up() {
    let mut dl = ArtDownload::start("x.mp3".to_string());
    let empty = resp(&[], None);
    assert_eq!(dl.feed(&empty), Ok(ArtStep::Continue));
    assert_eq!(dl.command(), "albumart \"x.mp3\" 0");
    assert_eq!(dl.feed(&empty), Ok(ArtStep::NoArt));
}

#[test]
fn art_single_chunk_covers_everything() {
    let mut dl = ArtDownload::start("x.mp3".to_string());
    let r = dl.feed(&resp(
        &[("size", "3"), ("binary", "3")],
        Some(vec![5, 6, 7]),
    ));
    assert_eq!(r, Ok(ArtStep::Done));
    assert_eq!(dl.into_data(), vec![5, 6, 7]);
}

#[test]
fn art_chunk_without_size_is_an_error() {
    let mut dl = ArtDownload::start("x.mp3".to_string());
    let r = dl.feed(&resp(&[("binary", "2")], Some(vec![1, 2])));
    assert_eq!(r, Err(ArtError::MissingSize));
}

#[test]
fn art_source_vanishing_mid_download_is_an_error() {
    let mut dl = ArtDownload::start("x.mp3".to_string());
    let r = dl.feed(&resp(
        &[("size", "10"), ("binary", "2")],
        Some(vec![1, 2]),
    ));
    assert_eq!(r, Ok(ArtStep::Continue));
    assert_eq!(dl.feed(&resp(&[], None)), Err(ArtError::MissingChunk));
}

#[test]
fn art_empty_chunk_short_of_total_is_an_error() {
    let mut dl = ArtDownload::start("x.mp3".to_string());
    let r = dl.feed(&resp(&[("size", "10")], Some(Vec::new())));
    assert_eq!(r, Err(ArtError::NoProgress));
}

#[test]
fn art_bad_size_is_an_error() {
    let mut dl = ArtDownload::start("x.mp3".to_string());
    let r = dl.feed(&resp(&[("size", "ten")], Some(vec![1])));
    assert_eq!(r, Err(ArtError::BadSize));
}

#[test]
fn track_info_extraction() {
    let r = resp(&[("file", "a/b.flac"), ("Id", "42")], None);
    let (uri, id) = art_track_info(&r).unwrap();
    assert_eq!(uri, "a/b.flac");
    assert_eq!(id, "42");
    assert!(art_track_info(&resp(&[("Id", "42")], None)).is_err());
    assert!(art_track_info(&resp(&[("file", "a")], None)).is_err());
}

#[test]
fn numbers_render_in_decimal() {
    assert_eq!(u64_to_string(0), "0");
    assert_eq!(u64_to_string(7), "7");
    assert_eq!(u64_to_string(10), "10");
    assert_eq!(u64_to_string(40961), "40961");
    assert_eq!(u64_to_string(u64::MAX), "18446744073709551615");
}

#[test]
fn cache_paths() {
    assert_eq!(
        art_cache_path(Some("/run/user/1000"), "42"),
        "/run/user/1000/mpd/album_art/42"
    );
    assert_eq!(art_cache_path(None, "42"), "/tmp/mpd/album_art/42");
}

#[test]
fn resolved_cache_path_has_the_fixed_shape() {
    let p = mpdris2::art::resolve_art_cache_path("42");
    assert!(p.ends_with("/mpd/album_art/42"));
}
