use anime_cli::catalog::{
    bot_list_reply, bots_url, fetch_failure, find_bot_name, find_package, search_reply,
    search_url, Bot, DCCPackage, FindError, Package,
};

fn bot(id: i64, name: &str) -> Bot {
    Bot { id, name: name.to_string() }
}

fn package(bot_id: i64, number: i32, name: &str) -> Package {
    Package { bot_id, number, name: name.to_string() }
}

#[test]
fn the_first_bot_with_the_id_is_found() {
    let bots = vec![bot(1, "Ginpachi"), bot(2, "CR-HOLLAND"), bot(1, "Shadow")];
    assert_eq!(find_bot_name(&bots, 1), Ok("Ginpachi".to_string()));
    assert_eq!(find_bot_name(&bots, 2), Ok("CR-HOLLAND".to_string()));
    assert_eq!(find_bot_name(&bots, 3), Err(FindError::UnknownBot));
    assert_eq!(find_bot_name(&bots, -1), Err(FindError::UnknownBot));
    assert_eq!(find_bot_name(&vec![], 1), Err(FindError::UnknownBot));
}

#[test]
fn the_first_result_is_chosen() {
    let bots = vec![bot(7, "Seven"), bot(8, "Eight")];
    let packages = vec![package(8, 1234, "Show - 01.mkv"), package(7, 99, "Show - 01v2.mkv")];
    assert_eq!(
        find_package(&packages, &bots),
        Ok(DCCPackage { number: 1234, bot: "Eight".to_string(), filename: "Show - 01.mkv".to_string() })
    );
}

#[test]
fn no_result_and_unknown_bot_are_errors() {
    let bots = vec![bot(7, "Seven")];
    assert_eq!(find_package(&vec![], &bots), Err(FindError::NoResult));
    assert_eq!(find_package(&vec![], &vec![]), Err(FindError::NoResult));
    assert_eq!(
        find_package(&vec![package(8, 1, "a.mkv"), package(7, 2, "b.mkv")], &bots),
        Err(FindError::UnknownBot)
    );
    assert_eq!(FindError::NoResult.message(), "Could not find any result for this query.");
    assert_eq!(FindError::UnknownBot.message(), "Results found, but unknown bot.");
}

#[test]
fn a_package_is_copied_field_by_field() {
    let p = DCCPackage { number: -3, bot: "b".to_string(), filename: "f".to_string() };
    assert_eq!(p.clone(), p);
}

#[test]
fn addresses_of_the_catalog() {
    assert_eq!(
        search_url("sakamoto 720", None),
        "https://api.nibl.co.uk/nibl/search?query=sakamoto 720"
    );
    assert_eq!(
        search_url("sakamoto 720", Some(12)),
        "https://api.nibl.co.uk/nibl/search?query=sakamoto 720&episodeNumber=12"
    );
    assert_eq!(
        search_url("", Some(0)),
        "https://api.nibl.co.uk/nibl/search?query=&episodeNumber=0"
    );
    assert_eq!(bots_url(), "https://api.nibl.co.uk/nibl/bots");
}

#[test]
fn replies_are_judged_by_their_status() {
    assert_eq!(search_reply("OK", "ignored"), Ok(()));
    assert_eq!(
        search_reply("ERROR", "bad query"),
        Err("Could not search package: bad query".to_string())
    );
    assert_eq!(search_reply("ok", ""), Err("Could not search package: ".to_string()));
    assert_eq!(bot_list_reply("OK", ""), Ok(()));
    assert_eq!(
        bot_list_reply("", "down"),
        Err("Could not fetch bot list: down".to_string())
    );
    assert_eq!(fetch_failure("timed out"), "Error while fetching results: timed out");
}
