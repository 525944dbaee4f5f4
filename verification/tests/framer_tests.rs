use anime_cli::framer::{Closed, Framer};

#[test]
fn hands_out_no_line_before_a_line_feed() {
    let mut framer = Framer::new();
    assert_eq!(framer.next_line(), None);
    assert_eq!(framer.accept(b"PING :ab"), Ok(()));
    assert_eq!(framer.next_line(), None);
    assert_eq!(framer.pending(), 8);
    assert_eq!(framer.accept(b"c\r\nNOT"), Ok(()));
    assert_eq!(framer.next_line(), Some("PING :abc\r\n".to_string()));
    assert_eq!(framer.next_line(), None);
    assert_eq!(framer.pending(), 3);
}

#[test]
fn keeps_the_carriage_return() {
    let mut framer = Framer::new();
    framer.push_text("a\r\nb\nc");
    assert_eq!(framer.next_line(), Some("a\r\n".to_string()));
    assert_eq!(framer.next_line(), Some("b\n".to_string()));
    assert_eq!(framer.next_line(), None);
    assert_eq!(framer.pending(), 1);
}

#[test]
fn an_empty_read_is_a_closed_connection() {
    let mut framer = Framer::new();
    framer.push_text("half");
    assert_eq!(framer.accept(b""), Err(Closed));
    assert_eq!(framer.pending(), 4);
}

#[test]
fn bytes_that_are_not_text_contribute_nothing() {
    let mut framer = Framer::new();
    assert_eq!(framer.accept(b"ab"), Ok(()));
    assert_eq!(framer.accept(&[0xff, 0xfe, b'\n']), Ok(()));
    assert_eq!(framer.next_line(), None);
    assert_eq!(framer.pending(), 2);
    assert_eq!(framer.accept("\u{e9}\n".as_bytes()), Ok(()));
    assert_eq!(framer.next_line(), Some("ab\u{e9}\n".to_string()));
}

#[test]
fn drains_every_complete_line() {
    let mut framer = Framer::new();
    framer.push_text("one\ntwo\r\n\nrest");
    assert_eq!(framer.drain(), vec!["one\n".to_string(), "two\r\n".to_string(), "\n".to_string()]);
    assert_eq!(framer.pending(), 4);
    assert_eq!(framer.drain(), Vec::<String>::new());
}

#[test]
fn lines_put_together_are_the_input_up_to_the_last_line_feed() {
    let input = ":a NOTICE x :hi\r\nPING :1\r\n:b PRIVMSG x :\u{1}DCC SEND f 1 2 3\u{1}\r\ntail";
    for chunk in [1usize, 2, 3, 5, 7, 64] {
        let mut framer = Framer::new();
        let mut out = String::new();
        let bytes = input.as_bytes();
        let mut at = 0;
        while at < bytes.len() {
            let end = if at + chunk < bytes.len() { at + chunk } else { bytes.len() };
            assert_eq!(framer.accept(&bytes[at..end]), Ok(()));
            while let Some(line) = framer.next_line() {
                assert!(line.ends_with('\n'));
                assert_eq!(line.matches('\n').count(), 1);
                out.push_str(&line);
            }
            at = end;
        }
        assert_eq!(out, &input[..input.len() - 4]);
        assert_eq!(framer.pending(), 4);
    }
}

#[test]
fn chunks_cut_between_characters_lose_nothing() {
    let input = "caf\u{e9} \u{1f600}\nna\u{ef}ve\r\n";
    let bytes = input.as_bytes();
    for cut in 0..=bytes.len() {
        if !input.is_char_boundary(cut) {
            continue;
        }
        let mut framer = Framer::new();
        if cut > 0 {
            assert_eq!(framer.accept(&bytes[..cut]), Ok(()));
        }
        if cut < bytes.len() {
            assert_eq!(framer.accept(&bytes[cut..]), Ok(()));
        }
        assert_eq!(
            framer.drain(),
            vec!["caf\u{e9} \u{1f600}\n".to_string(), "na\u{ef}ve\r\n".to_string()]
        );
        assert_eq!(framer.pending(), 0);
    }
}
