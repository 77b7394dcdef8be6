use emojikanban::confparse::{parse_config, strip_oauth_prefix};

const SAMPLE: &str = "bot-account bot-name                       // <- Replace 'bot-name'\nchannel     streamer-name                  // <- and 'streamer-name'\noauth       g0Bble0dEE0GukK0enCryPTIon0KEy // <- With or without \"oauth:\" prefix\n// The oauth should be generated\n";

#[test]
fn parse_sample_config() {
    let c = parse_config(SAMPLE).unwrap();
    assert_eq!(c.bot_account(), "bot-name");
    assert_eq!(c.channel(), "streamer-name");
    assert_eq!(c.oauth(), "g0Bble0dEE0GukK0enCryPTIon0KEy");
}

#[test]
fn parse_config_leading_blank_lines_and_tabs() {
    let c = parse_config("\n\r\n  bot-account\tme \nchannel you\t# note\noauth tok").unwrap();
    assert_eq!(c.bot_account(), "me");
    assert_eq!(c.channel(), "you");
    assert_eq!(c.oauth(), "tok");
}

#[test]
fn parse_config_value_ends_at_line_end() {
    let c = parse_config("bot-account alice\nchannel bob\noauth abc123\n").unwrap();
    assert_eq!(c.bot_account(), "alice");
    assert_eq!(c.channel(), "bob");
    assert_eq!(c.oauth(), "abc123");
    let d = parse_config("bot-account alice\r\nchannel bob\r\noauth abc123").unwrap();
    assert_eq!(d.bot_account(), "alice");
    assert_eq!(d.oauth(), "abc123");
}

#[test]
fn parse_config_wrong_order_fails() {
    assert!(parse_config("channel you\nbot-account me\noauth tok\n").is_err());
}

#[test]
fn parse_config_missing_separator_fails() {
    assert!(parse_config("bot-account\nchannel you\noauth tok\n").is_err());
    assert!(parse_config("bot-account me\nchannel you\n").is_err());
    assert!(parse_config("").is_err());
}

#[test]
fn strip_prefix_of_token() {
    assert_eq!(strip_oauth_prefix("oauth:abc123"), "abc123");
    assert_eq!(strip_oauth_prefix("abc123"), "abc123");
    assert_eq!(strip_oauth_prefix("oauth"), "oauth");
    assert_eq!(strip_oauth_prefix("oauth:"), "");
}
