use anime_cli::catalog::DCCPackage;
use anime_cli::request::{is_number_text, pack_number, IRCRequest};

fn package(number: i32, bot: &str) -> DCCPackage {
    DCCPackage { number, bot: bot.to_string(), filename: format!("{}.mkv", number) }
}

#[test]
fn a_request_is_made_of_packages_in_order() {
    let r = IRCRequest::for_packages(
        "irc.rizon.net:6667",
        "nibl",
        "randomRustacean",
        &vec![package(42, "Ginpachi"), package(7, "CR")],
    );
    assert_eq!(r.server, "irc.rizon.net:6667");
    assert_eq!(r.channel, "nibl");
    assert_eq!(r.nickname, "randomRustacean");
    assert_eq!(r.bot, vec!["Ginpachi".to_string(), "CR".to_string()]);
    assert_eq!(r.packages, vec!["42".to_string(), "7".to_string()]);
    assert!(r.is_valid());
}

#[test]
fn a_request_needs_a_pack() {
    let r = IRCRequest::for_packages("s", "c", "n", &vec![]);
    assert_eq!(r.bot.len(), 0);
    assert!(!r.is_valid());
}

#[test]
fn a_request_needs_a_bot_for_each_pack() {
    let mut r = IRCRequest::for_packages("s", "c", "n", &vec![package(1, "a")]);
    assert!(r.is_valid());
    r.packages.push("2".to_string());
    assert!(!r.is_valid());
    r.bot.push("b".to_string());
    assert!(r.is_valid());
    r.packages[1] = "two".to_string();
    assert!(!r.is_valid());
}

#[test]
fn a_negative_pack_number_makes_no_valid_request() {
    let r = IRCRequest::for_packages("s", "c", "n", &vec![package(-5, "a")]);
    assert_eq!(r.packages, vec!["-5".to_string()]);
    assert!(!r.is_valid());
}

#[test]
fn pack_numbers_are_written_in_decimal() {
    assert_eq!(pack_number(0), "0");
    assert_eq!(pack_number(1234), "1234");
    assert_eq!(pack_number(i32::MAX), "2147483647");
    assert_eq!(pack_number(-1), "-1");
    assert_eq!(pack_number(i32::MIN), "-2147483648");
}

#[test]
fn numerals_are_digits_and_nothing_else() {
    assert!(is_number_text("0"));
    assert!(is_number_text("0042"));
    assert!(is_number_text("99999999999999999999999999"));
    assert!(!is_number_text(""));
    assert!(!is_number_text("4 2"));
    assert!(!is_number_text("#42"));
    assert!(!is_number_text("\u{0664}\u{0662}"));
}
