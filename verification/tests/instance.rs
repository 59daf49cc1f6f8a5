use cce_browser::instance::{launch_command, parse_command, read_command, socket_path, Claim, ClaimAction};
use cce_browser::message::Message;

#[test]
fn commands_parse() {
    assert!(matches!(
        parse_command("open https://example.com"),
        Some(Message::OpenExternal(Some(u))) if u == "https://example.com"
    ));
    assert!(matches!(parse_command("new-tab"), Some(Message::OpenExternal(None))));
    assert!(parse_command("open ").is_none());
    assert!(parse_command("bogus").is_none());
}

#[test]
fn launches_arrive_as_they_were_sent() {
    let sent = launch_command(Some("https://example.com/x y"), None);
    assert_eq!(sent, "open https://example.com/x y\n");
    assert!(matches!(
        parse_command(sent.trim()),
        Some(Message::OpenExternal(Some(u))) if u == "https://example.com/x y"
    ));
    assert_eq!(launch_command(Some("page.html"), Some("/home/me/page.html")), "open /home/me/page.html\n");
    assert_eq!(launch_command(None, None), "new-tab\n");
    assert!(matches!(
        read_command(&launch_command(Some("page.html"), Some("/home/me/page.html"))),
        Some(Message::OpenExternal(Some(p))) if p == "/home/me/page.html"
    ));
}

#[test]
fn the_socket_goes_by_the_display() {
    assert_eq!(socket_path(Some("wayland-1")), "/tmp/cce-browser-wayland-1.sock");
    assert_eq!(socket_path(Some("")), "/tmp/cce-browser.sock");
    assert_eq!(socket_path(None), "/tmp/cce-browser.sock");
}

#[test]
fn a_launch_settles() {
    let start = Claim::Asking;
    assert_eq!(start.action(), ClaimAction::Forward);
    assert_eq!(start.next(true).action(), ClaimAction::Exit);
    let binding = start.next(false);
    assert_eq!(binding.action(), ClaimAction::Bind);
    assert_eq!(binding.next(true).action(), ClaimAction::Listen);
    let again = binding.next(false);
    assert_eq!(again.action(), ClaimAction::Forward);
    assert_eq!(again.next(true), Claim::Forwarded);
    assert_eq!(again.next(false).action(), ClaimAction::Start);
    assert_eq!(Claim::Claimed.next(false), Claim::Claimed);
}

#[test]
fn a_line_is_read_with_its_end() {
    assert!(matches!(read_command("new-tab\n"), Some(Message::OpenExternal(None))));
    assert!(matches!(
        read_command("open a b \r\n"),
        Some(Message::OpenExternal(Some(u))) if u == "a b"
    ));
    assert!(read_command("\n").is_none());
}
