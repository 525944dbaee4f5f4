use anime_cli::event::{ErrorKind, Status};
use anime_cli::message::OfferError;
use anime_cli::progress::{bar_label, exit_code, outcome, status_step, StatusStep};
use anime_cli::transfer::TransferError;

#[test]
fn a_short_name_is_shown_whole() {
    assert_eq!(bar_label("ep1.mkv", Some(80)), "ep1.mkv: ");
    assert_eq!(bar_label("ep1.mkv", None), "ep1.mkv: ");
    assert_eq!(bar_label("", Some(0)), ": ");
    assert_eq!(bar_label("0123456789", Some(20)), "0123456789: ");
    assert_eq!(bar_label("0123456789", Some(21)), "0123456789: ");
}

#[test]
fn a_long_name_is_elided_in_the_middle() {
    assert_eq!(bar_label("0123456789a", Some(20)), "01234...56789a: ");
    assert_eq!(bar_label("abcdefghijklmnopqrstuvwxyz", Some(16)), "abcd...vwxyz: ");
    assert_eq!(bar_label("abc", Some(0)), "...c: ");
    assert_eq!(bar_label("abc", Some(3)), "...c: ");
    assert_eq!(bar_label("abc", Some(4)), "a...bc: ");
    let long: String = "x".repeat(300);
    let label = bar_label(&long, Some(240));
    assert_eq!(label.chars().count(), 60 + 3 + 61 + 2);
}

#[test]
fn elision_counts_characters() {
    assert_eq!(bar_label("\u{e9}\u{e9}\u{e9}\u{e9}\u{e9}", Some(8)), "\u{e9}\u{e9}...\u{e9}\u{e9}\u{e9}: ");
    assert_eq!(bar_label("\u{e9}\u{e9}\u{e9}\u{e9}", Some(8)), "\u{e9}\u{e9}\u{e9}\u{e9}: ");
}

#[test]
fn statuses_move_the_status_bar() {
    assert_eq!(status_step(&Status::EpisodeFinished), StatusStep::Advance);
    assert_eq!(status_step(&Status::Success), StatusStep::Finish);
    assert_eq!(status_step(&Status::Connecting), StatusStep::Tick);
    assert_eq!(status_step(&Status::Connected), StatusStep::Tick);
    assert_eq!(status_step(&Status::TimeoutWarning), StatusStep::Tick);
    assert_eq!(status_step(&Status::NowDownloading("f".to_string())), StatusStep::Tick);
    assert_eq!(status_step(&Status::WorkerFailed(ErrorKind::File)), StatusStep::Tick);
}

#[test]
fn statuses_have_their_words() {
    assert_eq!(Status::Connecting.text(), "Connecting");
    assert_eq!(Status::Connected.text(), "Connected");
    assert_eq!(Status::NowDownloading("ep1.mkv".to_string()).text(), "Now downloading ep1.mkv");
    assert_eq!(Status::EpisodeFinished.text(), "Episode Finished Downloading");
    assert_eq!(Status::Success.text(), "Success");
    assert_eq!(Status::TimeoutWarning.text(), "Timed out waiting for a reply");
    assert_eq!(
        Status::WorkerFailed(ErrorKind::Network).text(),
        "Download failed: The connection failed"
    );
    assert_eq!(
        Status::WorkerFailed(ErrorKind::File).text(),
        "Download failed: The file could not be written"
    );
}

#[test]
fn error_kinds_have_their_words() {
    assert_eq!(ErrorKind::Network.text(), "The connection failed");
    assert_eq!(ErrorKind::Protocol.text(), "The peer broke the protocol");
    assert_eq!(ErrorKind::Timeout.text(), "Timed out");
    assert_eq!(ErrorKind::File.text(), "The file could not be written");
}

#[test]
fn errors_have_their_kind() {
    assert_eq!(TransferError::Oversized.kind(), ErrorKind::File);
    assert_eq!(TransferError::PrematureEof.kind(), ErrorKind::Protocol);
    assert_eq!(TransferError::Overrun.kind(), ErrorKind::Protocol);
    assert_eq!(OfferError::BadAddress.kind(), ErrorKind::Protocol);
    assert_eq!(OfferError::BadSize.kind(), ErrorKind::Protocol);
    assert_eq!(OfferError::NotAnOffer.kind(), ErrorKind::Protocol);
}

#[test]
fn the_outcome_is_the_controllers_error_or_the_last_workers() {
    assert_eq!(outcome(None, &vec![]), Ok(()));
    assert_eq!(outcome(None, &vec![None, None]), Ok(()));
    assert_eq!(outcome(Some(ErrorKind::Timeout), &vec![]), Err(ErrorKind::Timeout));
    assert_eq!(
        outcome(Some(ErrorKind::Timeout), &vec![Some(ErrorKind::File)]),
        Err(ErrorKind::Timeout)
    );
    assert_eq!(
        outcome(None, &vec![Some(ErrorKind::File), None, Some(ErrorKind::Network), None]),
        Err(ErrorKind::Network)
    );
    assert_eq!(outcome(None, &vec![Some(ErrorKind::File), None]), Err(ErrorKind::File));
}

#[test]
fn the_exit_code_is_zero_for_success_alone() {
    assert_eq!(exit_code(Ok(())), 0);
    assert_eq!(exit_code(Err(ErrorKind::Network)), 1);
    assert_eq!(exit_code(Err(ErrorKind::Protocol)), 1);
    assert_eq!(exit_code(Err(ErrorKind::Timeout)), 1);
    assert_eq!(exit_code(Err(ErrorKind::File)), 1);
}
