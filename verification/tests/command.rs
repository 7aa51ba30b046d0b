use aparte::command::{Command, ParseError};

fn command(name: &str, args: &[&str]) -> Command {
    Command { name: name.to_string(), args: args.iter().map(|a| a.to_string()).collect() }
}

#[test]
fn words_are_cut_at_blanks() {
    assert_eq!(Command::try_from("/foo a b key=v"), Ok(command("foo", &["a", "b", "key=v"])));
    assert_eq!(Command::try_from("/foo   a \t b  "), Ok(command("foo", &["a", "b"])));
    assert_eq!(Command::try_from("/quit"), Ok(command("quit", &[])));
}

#[test]
fn quotes_keep_blanks_together() {
    assert_eq!(
        Command::try_from("/msg alice \"hello  there\""),
        Ok(command("msg", &["alice", "hello  there"]))
    );
    assert_eq!(Command::try_from("/a b\"c d\"e"), Ok(command("a", &["bc de"])));
    assert_eq!(Command::try_from("/a \"\" b"), Ok(command("a", &["", "b"])));
}

#[test]
fn a_backslash_takes_the_next_character_as_it_is() {
    assert_eq!(Command::try_from("/a b\\ c"), Ok(command("a", &["b c"])));
    assert_eq!(Command::try_from("/a \\\"b"), Ok(command("a", &["\"b"])));
    assert_eq!(Command::try_from("/a \"b\\\"c\""), Ok(command("a", &["b\"c"])));
    assert_eq!(Command::try_from("/a b\\\\c"), Ok(command("a", &["b\\c"])));
}

#[test]
fn names_are_case_sensitive() {
    assert_eq!(Command::try_from("/Foo").unwrap().name, "Foo");
    assert_ne!(Command::try_from("/Foo"), Command::try_from("/foo"));
}

#[test]
fn a_line_without_a_slash_is_no_command() {
    assert_eq!(Command::try_from("hello"), Err(ParseError::NotACommand));
    assert_eq!(Command::try_from(""), Err(ParseError::NotACommand));
    assert_eq!(Command::try_from(" /a"), Err(ParseError::NotACommand));
}

#[test]
fn a_slash_alone_names_nothing() {
    assert_eq!(Command::try_from("/"), Err(ParseError::MissingName));
    assert_eq!(Command::try_from("/   "), Err(ParseError::MissingName));
}

#[test]
fn an_open_quote_is_an_error() {
    assert_eq!(Command::try_from("/a \"b c"), Err(ParseError::MissingQuote));
}

#[test]
fn a_backslash_at_the_end_is_an_error() {
    assert_eq!(Command::try_from("/a b\\"), Err(ParseError::MissingEscaped));
}

#[test]
fn errors_in_words() {
    assert_eq!(ParseError::NotACommand.to_string(), "Not a command");
    assert_eq!(ParseError::MissingName.to_string(), "Missing command name");
    assert_eq!(ParseError::MissingQuote.to_string(), "Missing closing quote");
    assert_eq!(ParseError::MissingEscaped.to_string(), "Missing escaped char");
}

#[test]
fn a_command_is_written_with_quotes_where_they_are_needed() {
    assert_eq!(command("win", &["console"]).to_string(), "/win console");
    assert_eq!(command("msg", &["alice", "hello there"]).to_string(), "/msg alice \"hello there\"");
    assert_eq!(command("a", &[""]).to_string(), "/a \"\"");
    assert_eq!(command("a", &["b\"c", "d\\e"]).to_string(), "/a \"b\\\"c\" \"d\\\\e\"");
    assert_eq!(command("quit", &[]).to_string(), "/quit");
}

#[test]
fn command_round_trip() {
    let commands = vec![
        command("bookmark", &["add", "aparte", "aparte@conf.x/n", "autojoin=on"]),
        command("msg", &["alice@x", "one  two\tthree", "", "\"", "\\", "a\\\"b"]),
        command("", &[]),
        command("", &["", ""]),
        command("with blank", &["é ü", "\n"]),
        command("quit", &[]),
    ];
    for command in commands {
        assert_eq!(Command::try_from(command.to_string().as_str()), Ok(command.clone()));
    }
}

#[test]
fn a_copy_of_a_command_is_the_command() {
    let first = command("a", &["b", "c"]);
    assert_eq!(first.clone(), first);
}
