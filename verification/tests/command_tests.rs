use anime_cli::command::{
    dcc_resume, join, nick, nickname, pong, quit, user, xdcc_cancel, xdcc_remove, xdcc_send,
    Command,
};

#[test]
fn commands_end_in_carriage_return_and_line_feed() {
    assert_eq!(nick("rust123"), "NICK rust123\r\n");
    assert_eq!(user("rust123"), "USER rust123 0 * rust123\r\n");
    assert_eq!(join("nibl"), "JOIN #nibl\r\n");
    assert_eq!(quit(), "QUIT\r\n");
    assert_eq!(xdcc_send("bot", "42"), "PRIVMSG bot :xdcc send #42\r\n");
    assert_eq!(xdcc_remove("bot", "42"), "PRIVMSG bot :xdcc remove #42\r\n");
    assert_eq!(xdcc_cancel("bot"), "PRIVMSG bot :\u{1}XDCC CANCEL\u{1}\r\n");
}

#[test]
fn resume_names_file_port_and_offset() {
    assert_eq!(
        dcc_resume("bot", "ep1.mkv", "5000", 500000),
        "PRIVMSG bot :\u{1}DCC RESUME \"ep1.mkv\" 5000 500000\u{1}\r\n"
    );
    assert_eq!(dcc_resume("b", "", "", 0), "PRIVMSG b :\u{1}DCC RESUME \"\"  0\u{1}\r\n");
}

#[test]
fn pong_is_the_ping_with_one_word_changed() {
    let line = "PING :irc.rizon.net\r\n";
    assert_eq!(pong(&line[6..]), "PONG :irc.rizon.net\r\n");
    assert_eq!(pong("PING\n"), "PONG :PING\n");
}

#[test]
fn nickname_is_prefix_and_number() {
    assert_eq!(nickname("randomRustacean", 0), "randomRustacean0");
    assert_eq!(nickname("randomRustacean", 65535), "randomRustacean65535");
    assert_eq!(nickname("", 7), "7");
}

#[test]
fn each_command_has_its_line() {
    assert_eq!(Command::Nick("n1".to_string()).line(), "NICK n1\r\n");
    assert_eq!(Command::User("n1".to_string()).line(), "USER n1 0 * n1\r\n");
    assert_eq!(Command::Join("c".to_string()).line(), "JOIN #c\r\n");
    assert_eq!(Command::Pong("t\r\n".to_string()).line(), "PONG :t\r\n");
    assert_eq!(
        Command::XdccSend { bot: "b".to_string(), pack: "1".to_string() }.line(),
        "PRIVMSG b :xdcc send #1\r\n"
    );
    assert_eq!(
        Command::XdccRemove { bot: "b".to_string(), pack: "1".to_string() }.line(),
        "PRIVMSG b :xdcc remove #1\r\n"
    );
    assert_eq!(
        Command::XdccCancel { bot: "b".to_string() }.line(),
        "PRIVMSG b :\u{1}XDCC CANCEL\u{1}\r\n"
    );
    assert_eq!(
        Command::DccResume {
            bot: "b".to_string(),
            filename: "f".to_string(),
            port: "9".to_string(),
            offset: 12,
        }
        .line(),
        "PRIVMSG b :\u{1}DCC RESUME \"f\" 9 12\u{1}\r\n"
    );
    assert_eq!(Command::Quit.line(), "QUIT\r\n");
}
