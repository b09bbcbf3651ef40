use salamandra::client::{
    client_step, downloaded_message, downloading_message, sign_in_request, sign_in_step,
    ClientAction, ClientEvent, DownloadError, DownloadProgress, SignInAction, SignInEvent,
    DOWNLOAD_PATH, RETRY_DELAY_SECS,
};
use salamandra::config::{Client, Config, Sock};
use salamandra::connection::{decode_message, encode_message};

fn config(ip: Option<&str>, port: Option<&str>) -> Config {
    Config {
        client: Client {
            listen: Sock { ip: ip.map(|s| s.to_string()), port: port.map(|s| s.to_string()) },
            name: Some(String::from("c1")),
            route_down: None,
            buffer_size: 8192,
        },
    }
}

#[test]
fn listener_address() {
    assert_eq!(config(Some("192.168.1.20"), Some("9090")).get_listener(), "192.168.1.20:9090");
    assert_eq!(config(Some(""), Some("")).get_listener(), ":");
}

#[test]
fn sign_in_request_is_json() {
    let req = sign_in_request("10.0.0.2:9090");
    assert_eq!(req, r#"{"data":"10.0.0.2:9090","operation":"client-record"}"#);
    let value: serde_json::Value = serde_json::from_str(&req).unwrap();
    assert_eq!(value["operation"], "client-record");
    assert_eq!(value["data"], "10.0.0.2:9090");
    assert_eq!(sign_in_request("a\"b"), r#"{"data":"a\"b","operation":"client-record"}"#);
}

#[test]
fn sign_in_decisions() {
    assert_eq!(RETRY_DELAY_SECS, 5);
    assert_eq!(sign_in_step(&SignInEvent::ConnectFailed, "x:1"), SignInAction::WaitAndRetry(5));
    assert_eq!(
        sign_in_step(&SignInEvent::Connected, "x:1"),
        SignInAction::Send(String::from(r#"{"data":"x:1","operation":"client-record"}"#))
    );
    assert_eq!(sign_in_step(&SignInEvent::Answered(String::from("ok")), "x:1"), SignInAction::Finish);
    assert_eq!(sign_in_step(&SignInEvent::Answered(String::from("OK")), "x:1"), SignInAction::Finish);
    assert_eq!(
        sign_in_step(&SignInEvent::Answered(String::from("NO")), "x:1"),
        SignInAction::WaitAndRetry(5)
    );
    assert_eq!(
        sign_in_step(&SignInEvent::Answered(String::from("ERROR")), "x:1"),
        SignInAction::WaitAndRetry(5)
    );
}

#[test]
fn server_ok_ends_sign_in() {
    let mut frame = encode_message("OK").unwrap();
    let answer = decode_message(&mut frame);
    assert_eq!(sign_in_step(&SignInEvent::Answered(answer), "x:1"), SignInAction::Finish);
}

#[test]
fn progress_is_capped() {
    let mut p = DownloadProgress::start(100, None);
    assert_eq!(p, DownloadProgress { downloaded: 0, total: 100 });
    p.advance(40);
    assert_eq!(p.downloaded, 40);
    p.advance(40);
    assert_eq!(p.downloaded, 80);
    p.advance(40);
    assert_eq!(p.downloaded, 100);
    p.advance(0);
    assert_eq!(p.downloaded, 100);
    let mut resumed = DownloadProgress::start(100, Some(150));
    assert_eq!(resumed.downloaded, 150);
    resumed.advance(1);
    assert_eq!(resumed.downloaded, 100);
}

#[test]
fn download_error_messages() {
    let url = String::from("http://h/f");
    assert_eq!(DownloadError::Request(url.clone()).message(), "Failed to GET from 'http://h/f'");
    assert_eq!(
        DownloadError::ContentLength(url).message(),
        "Failed to get content length from 'http://h/f'"
    );
    assert_eq!(
        DownloadError::CreateFile(String::from("./shared/x")).message(),
        "Failed to create file './shared/x'"
    );
    assert_eq!(DownloadError::Chunk.message(), "Error while downloading file");
    assert_eq!(DownloadError::Write.message(), "Error while writing to file");
}

#[test]
fn progress_messages() {
    assert_eq!(downloading_message("http://h/f"), "Downloading http://h/f");
    assert_eq!(downloaded_message("http://h/f", "./shared/f"), "Downloaded http://h/f to ./shared/f");
}

#[test]
fn client_connection_decisions() {
    let url = String::from("http://192.168.1.161:8080/shared/android.tar.gz");
    assert_eq!(
        client_step(ClientEvent::UrlReceived(url.clone())),
        ClientAction::Download { url, path: String::from(DOWNLOAD_PATH) }
    );
    assert_eq!(DOWNLOAD_PATH, "./shared/android.tar.gz");
    assert_eq!(client_step(ClientEvent::Downloaded), ClientAction::Reply(String::from("downloaded")));
}
