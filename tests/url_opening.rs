use world_monitor::links::{open_url, polymarket_url, url_open_command, ParsedUrl};
use world_monitor::supervisor::HostOs;

const REFUSED: &str = "Only https:// URLs are allowed (http:// only for localhost)";

fn parsed(scheme: &str, host: Option<&str>, text: &str) -> Option<ParsedUrl> {
    Some(ParsedUrl {
        scheme: scheme.to_string(),
        host: host.map(str::to_string),
        text: text.to_string(),
    })
}

#[test]
fn open_rule_on_parsed_parts() {
    let ok = url_open_command(HostOs::OtherUnix, parsed("https", Some("a.b"), "https://a.b/")).unwrap();
    assert_eq!((ok.program.as_str(), ok.arg.as_str()), ("xdg-open", "https://a.b/"));
    assert!(url_open_command(HostOs::MacOs, parsed("http", Some("127.0.0.1"), "x")).is_ok());
    assert_eq!(
        url_open_command(HostOs::MacOs, parsed("http", Some("a.b"), "x")).err(),
        Some(REFUSED.to_string())
    );
    assert_eq!(
        url_open_command(HostOs::MacOs, parsed("file", None, "x")).err(),
        Some(REFUSED.to_string())
    );
    assert_eq!(url_open_command(HostOs::MacOs, None).err(), Some("Invalid URL".to_string()));
}

#[test]
fn open_url_hands_the_normalised_url_to_the_opener() {
    let cmd = open_url(HostOs::MacOs, "HTTPS://Example.COM").unwrap();
    assert_eq!(cmd.program, "open");
    assert_eq!(cmd.arg, "https://example.com/");
    assert!(open_url(HostOs::Windows, "http://localhost:3000/x").is_ok());
}

#[test]
fn open_url_refuses_plain_http_and_garbage() {
    assert_eq!(open_url(HostOs::Windows, "http://example.com").err(), Some(REFUSED.to_string()));
    assert_eq!(open_url(HostOs::Windows, "not a url").err(), Some("Invalid URL".to_string()));
}

#[test]
fn market_urls_for_allowed_endpoints() {
    assert_eq!(
        polymarket_url("//events", "limit=5"),
        Ok("https://gamma-api.polymarket.com/events?limit=5".to_string())
    );
    assert_eq!(
        polymarket_url("markets/123", ""),
        Ok("https://gamma-api.polymarket.com/markets/123?".to_string())
    );
    assert_eq!(polymarket_url("/admin", "x=1"), Err("Invalid Polymarket path".to_string()));
    assert_eq!(polymarket_url("", ""), Err("Invalid Polymarket path".to_string()));
}
