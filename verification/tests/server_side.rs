use salamandra::registry::{client_lines, client_record_line};
use salamandra::server::{
    confirms_download, download_url, parse_operation, server_step, shared_file_path, Operation,
    Request, ServerAction, ServerEvent, SharedEntry,
};

fn request(operation: &str, data: Option<&str>) -> Request {
    Request { operation: operation.to_string(), data: data.map(|d| d.to_string()) }
}

#[test]
fn operations_ignore_case() {
    assert_eq!(parse_operation("client-record"), Some(Operation::ClientRecord));
    assert_eq!(parse_operation("Client-Record"), Some(Operation::ClientRecord));
    assert_eq!(parse_operation("broadcast"), Some(Operation::Broadcast));
    assert_eq!(parse_operation("BROADCAST"), Some(Operation::Broadcast));
    assert_eq!(parse_operation("broadcast "), None);
    assert_eq!(parse_operation(""), None);
    assert_eq!(parse_operation("record"), None);
    assert_eq!(parse_operation("BROADCA\u{17f}T"), None);
}

#[test]
fn request_dispatch() {
    match server_step(ServerEvent::RequestReceived(request("CLIENT-RECORD", Some("10.0.0.2:9090")))) {
        ServerAction::SaveClient(addr) => assert_eq!(addr, Some(String::from("10.0.0.2:9090"))),
        other => panic!("unexpected {:?}", other),
    }
    match server_step(ServerEvent::RequestReceived(request("client-record", None))) {
        ServerAction::SaveClient(addr) => assert_eq!(addr, None),
        other => panic!("unexpected {:?}", other),
    }
    match server_step(ServerEvent::RequestReceived(request("broadcast", Some("null")))) {
        ServerAction::Broadcast => {}
        other => panic!("unexpected {:?}", other),
    }
    match server_step(ServerEvent::RequestReceived(request("delete", None))) {
        ServerAction::Reply(m) => assert_eq!(m, "ERROR"),
        other => panic!("unexpected {:?}", other),
    }
}

#[test]
fn replies_after_work() {
    match server_step(ServerEvent::ClientSaved(1)) {
        ServerAction::Reply(m) => assert_eq!(m, "OK"),
        other => panic!("unexpected {:?}", other),
    }
    match server_step(ServerEvent::ClientSaved(0)) {
        ServerAction::Reply(m) => assert_eq!(m, "NO"),
        other => panic!("unexpected {:?}", other),
    }
    match server_step(ServerEvent::BroadcastFinished) {
        ServerAction::Reply(m) => assert_eq!(m, "OK"),
        other => panic!("unexpected {:?}", other),
    }
}

fn entry(path: &str, is_dir: bool) -> SharedEntry {
    SharedEntry { path: path.to_string(), is_dir }
}

#[test]
fn offered_file_is_the_last_file() {
    let entries = vec![
        entry("./shared/a.txt", false),
        entry("./shared/android.tar.gz", false),
        entry("./shared/sub", true),
    ];
    assert_eq!(shared_file_path(&entries), "./shared/android.tar.gz");
    assert_eq!(shared_file_path(&vec![entry("./shared/sub", true)]), "");
    assert_eq!(shared_file_path(&Vec::new()), "");
}

#[test]
fn url_of_shared_file() {
    assert_eq!(
        download_url("./shared/android.tar.gz"),
        "http://192.168.1.161:8080/shared/android.tar.gz"
    );
    assert_eq!(download_url("./"), "http://192.168.1.161:8080/");
    assert_eq!(download_url("\u{e9}x"), "http://192.168.1.161:8080/x");
}

#[test]
fn download_confirmation() {
    assert!(confirms_download("downloaded"));
    assert!(confirms_download("DOWNLOADED"));
    assert!(!confirms_download("download"));
    assert!(!confirms_download(""));
}

#[test]
fn registry_lines() {
    assert_eq!(client_record_line("127.0.0.1:8080"), "127.0.0.1:8080\r\n");
    assert_eq!(client_lines("a\r\nb\r\n"), vec!["a", "b"]);
    assert_eq!(client_lines("a\nb"), vec!["a", "b"]);
    assert_eq!(client_lines("a\r\r\n"), vec!["a\r"]);
    assert_eq!(client_lines("a\r"), vec!["a\r"]);
    assert_eq!(client_lines("\r\n\r\n"), vec!["", ""]);
    assert_eq!(client_lines(""), Vec::<String>::new());
}

#[test]
fn registry_round_trip() {
    let clients = ["127.0.0.1:8080", "127.0.1.1:8080", "127.0.2.1:8080", "127.0.3.1:8080"];
    let mut text = String::new();
    for c in clients {
        text.push_str(&client_record_line(c));
    }
    assert_eq!(text, "127.0.0.1:8080\r\n127.0.1.1:8080\r\n127.0.2.1:8080\r\n127.0.3.1:8080\r\n");
    assert_eq!(client_lines(&text), clients.to_vec());
}
