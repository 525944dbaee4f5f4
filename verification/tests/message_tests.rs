use anime_cli::ipv4::Ipv4;
use anime_cli::message::{
    classify, classify_with, find_dcc_send, is_mode_line, offer_from_groups, parse_dcc_send,
    DccOffer, Message, OfferError,
};

fn offer(name: &str, addr: Ipv4, port: &str, size: u64) -> DccOffer {
    DccOffer {
        filename: name.to_string(),
        peer_addr: addr,
        peer_port: port.to_string(),
        size_bytes: size,
    }
}

fn groups(whole: &str, name: &str, addr: &str, port: &str, size: &str) -> Vec<Option<String>> {
    vec![
        Some(whole.to_string()),
        Some(name.to_string()),
        Some(addr.to_string()),
        Some(port.to_string()),
        Some(size.to_string()),
    ]
}

#[test]
fn ping_carries_its_token() {
    assert_eq!(classify("PING :irc.rizon.net\r\n"), Message::Ping("irc.rizon.net\r\n".to_string()));
    assert_eq!(classify("PING :\n"), Message::Ping("\n".to_string()));
    assert_eq!(classify(" PING :x\r\n"), Message::Other);
    assert_eq!(classify("PING x\r\n"), Message::Other);
}

#[test]
fn ping_comes_before_every_other_kind() {
    assert_eq!(
        classify("PING :MODE a :+i JOIN :#c DCC SEND f 1 2 3\r\n"),
        Message::Ping("MODE a :+i JOIN :#c DCC SEND f 1 2 3\r\n".to_string())
    );
}

#[test]
fn mode_confirmation_is_recognised() {
    assert_eq!(classify(":nick MODE nick :+ix\r\n"), Message::Mode);
    assert_eq!(classify(":nick MODE nick :+\r\n"), Message::Mode);
    assert!(is_mode_line(":nick MODE nick :+ix\r\n"));
    assert!(!is_mode_line(":nick MODE nick +ix\r\n"));
    assert!(!is_mode_line(":nick MODE:+ix\r\n"));
    assert!(!is_mode_line("MODE x\n :+i"));
    assert_eq!(classify(":nick MODE nick :+i JOIN :#nibl\r\n"), Message::Mode);
}

#[test]
fn join_confirmation_is_recognised() {
    assert_eq!(classify(":nick!u@h JOIN :#nibl\r\n"), Message::Join);
    assert_eq!(classify(":nick!u@h JOIN #nibl\r\n"), Message::Other);
}

#[test]
fn dcc_send_is_parsed() {
    let line = ":bot!u@h PRIVMSG nick :\u{1}DCC SEND \"ep1.mkv\" 3232235777 5000 1048576\u{1}\r\n";
    let want = offer("ep1.mkv", Ipv4 { a: 192, b: 168, c: 1, d: 1 }, "5000", 1048576);
    assert_eq!(classify(line), Message::DccSend(want.clone()));
    assert_eq!(parse_dcc_send(line), Ok(want));
}

#[test]
fn dcc_send_decodes_the_address() {
    let line = "DCC SEND file.mkv 16777343 80 1";
    assert_eq!(
        parse_dcc_send(line),
        Ok(offer("file.mkv", Ipv4 { a: 1, b: 0, c: 0, d: 127 }, "80", 1))
    );
}

#[test]
fn dcc_send_without_quotes_and_with_spaces() {
    assert_eq!(
        parse_dcc_send("x DCC SEND my file.mkv 1 2 3 y"),
        Ok(offer("my file.mkv", Ipv4 { a: 0, b: 0, c: 0, d: 1 }, "2", 3))
    );
    assert_eq!(
        parse_dcc_send("DCC SEND \"a \"b\" c.mkv\" 1 2 0"),
        Ok(offer("a \"b\" c.mkv", Ipv4 { a: 0, b: 0, c: 0, d: 1 }, "2", 0))
    );
}

#[test]
fn dcc_send_groups_are_those_of_the_match() {
    assert_eq!(
        find_dcc_send("a DCC SEND \"f.mkv\" 10 20 30\u{1}"),
        Some(groups("DCC SEND \"f.mkv\" 10 20 30", "f.mkv\"", "10", "20", "30"))
    );
    assert_eq!(find_dcc_send("DCC SEND f.mkv 10 20"), None);
    assert_eq!(find_dcc_send("DCC ACCEPT f.mkv 10 20 30"), None);
}

#[test]
fn malformed_numbers_are_bad_offers() {
    assert_eq!(parse_dcc_send("DCC SEND f 4294967296 1 1"), Err(OfferError::BadAddress));
    assert_eq!(
        parse_dcc_send("DCC SEND f 1 1 18446744073709551616"),
        Err(OfferError::BadSize)
    );
    assert_eq!(parse_dcc_send("DCC SEND f \u{0663} 1 1"), Err(OfferError::BadAddress));
    assert_eq!(parse_dcc_send("DCC SEND f 1 1 \u{0663}"), Err(OfferError::BadSize));
    assert_eq!(parse_dcc_send("nothing here"), Err(OfferError::NotAnOffer));
    assert_eq!(
        classify("DCC SEND f 4294967296 1 1\r\n"),
        Message::BadOffer(OfferError::BadAddress)
    );
    assert_eq!(
        classify("DCC SEND f 4294967296 1 99999999999999999999\r\n"),
        Message::BadOffer(OfferError::BadAddress)
    );
}

#[test]
fn groups_of_another_shape_give_no_offer() {
    assert_eq!(offer_from_groups(&vec![]), Err(OfferError::NotAnOffer));
    assert_eq!(
        offer_from_groups(&vec![Some("a".to_string()), Some("b".to_string())]),
        Err(OfferError::NotAnOffer)
    );
    let mut missing = groups("w", "f", "1", "2", "3");
    missing[3] = None;
    assert_eq!(offer_from_groups(&missing), Err(OfferError::NotAnOffer));
    assert_eq!(
        offer_from_groups(&groups("w", "\"f\"", "1", "2", "3")),
        Ok(offer("f", Ipv4 { a: 0, b: 0, c: 0, d: 1 }, "2", 3))
    );
}

#[test]
fn known_fields_come_back_from_a_synthesized_line() {
    let cases: Vec<(&str, u32, &str, u64)> = vec![
        ("ep1.mkv", 3232235777, "5000", 1048576),
        ("[Group] Show - 01 [720p].mkv", 0, "1", 0),
        ("a", u32::MAX, "65535", u64::MAX),
        ("with \"inner\" quotes.mp4", 16777343, "6667", 42),
    ];
    for (name, address, port, size) in cases {
        let quoted = format!("PRIVMSG me :\u{1}DCC SEND \"{}\" {} {} {}\u{1}\r\n", name, address, port, size);
        let bare = format!("PRIVMSG me :\u{1}DCC SEND {} {} {} {}\u{1}\r\n", name, address, port, size);
        let want = offer(name, Ipv4::from_number(address), port, size);
        assert_eq!(parse_dcc_send(&quoted), Ok(want.clone()));
        assert_eq!(parse_dcc_send(&bare), Ok(want.clone()));
        assert_eq!(want.peer_addr.to_number(), address);
    }
}

#[test]
fn accept_queue_and_duplicate_are_recognised() {
    assert_eq!(classify(":b PRIVMSG n :\u{1}DCC ACCEPT \"ep1.mkv\" 5000 500000\u{1}\r\n"), Message::DccAccept);
    assert_eq!(classify(":b NOTICE n :You have queued too many packs\r\n"), Message::QueueFull);
    assert_eq!(classify(":b NOTICE n :queued too many\r\n"), Message::Other);
    assert_eq!(classify(":b NOTICE n :** You already requested\r\n"), Message::Duplicate);
    assert_eq!(classify(":b NOTICE n :** You already requested"), Message::Duplicate);
    assert_eq!(classify(":b NOTICE n :** You already requested \t\r\n"), Message::Duplicate);
    assert_eq!(classify(":b NOTICE n :** You already requested that pack\r\n"), Message::Other);
    assert_eq!(classify(":b PRIVMSG n :** You already requested\r\n"), Message::Other);
    assert_eq!(classify(":b NOTICE n :You already requested\r\n"), Message::Other);
    assert_eq!(classify(":server 372 n :- motd\r\n"), Message::Other);
    assert_eq!(classify(""), Message::Other);
}

#[test]
fn the_first_check_that_holds_decides() {
    assert_eq!(classify(":b JOIN :#c DCC SEND f 1 2 3\r\n"), Message::Join);
    assert_eq!(
        classify(":b DCC SEND f 1 2 3 DCC ACCEPT  queued too many \r\n"),
        Message::DccSend(offer("f", Ipv4 { a: 0, b: 0, c: 0, d: 1 }, "2", 3))
    );
    assert_eq!(classify(":b NOTICE DCC ACCEPT x queued too many y\r\n"), Message::DccAccept);
    assert_eq!(classify(":b NOTICE n : queued too many  You already requested\r\n"), Message::QueueFull);
}

#[test]
fn classification_follows_what_the_expressions_found() {
    assert_eq!(classify_with("hello\r\n", true, None), Message::Mode);
    assert_eq!(classify_with("PING :t", true, None), Message::Ping("t".to_string()));
    assert_eq!(classify_with("x JOIN :#c", true, None), Message::Mode);
    assert_eq!(
        classify_with("x JOIN :#c", false, Some(groups("w", "f", "1", "2", "3"))),
        Message::Join
    );
    assert_eq!(
        classify_with("hello", false, Some(groups("w", "f\"", "3232235777", "5000", "7"))),
        Message::DccSend(offer("f", Ipv4 { a: 192, b: 168, c: 1, d: 1 }, "5000", 7))
    );
    assert_eq!(
        classify_with("DCC ACCEPT ", false, Some(groups("w", "f", "x", "2", "3"))),
        Message::BadOffer(OfferError::BadAddress)
    );
    assert_eq!(
        classify_with("hello", false, Some(vec![Some("w".to_string())])),
        Message::BadOffer(OfferError::NotAnOffer)
    );
    assert_eq!(classify_with("hello", false, None), Message::Other);
}
