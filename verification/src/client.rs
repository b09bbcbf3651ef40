//! Decisions of the client: signing in with the server, following a download,
//! and answering the server once the file is down.

use vstd::prelude::*;
use vstd::string::StringExecFns;
use vstd::utf8::*;
use crate::text::{ascii_case_insensitive_eq, eq_ignore_ascii_case};

verus! {

/// Where the server accepts TCP connections.
pub const SERVER_ADDRESS: &'static str = "192.168.1.161:9123";

/// Where a downloaded file is stored.
pub const DOWNLOAD_PATH: &'static str = "./shared/android.tar.gz";

/// Seconds to wait before signing in again.
pub const RETRY_DELAY_SECS: u64 = 5;

/// What `serde_json` writes for a JSON object whose members are the given
/// names, each with a JSON string value, inserted in the given order.
pub uninterp spec fn json_string_object_text(fields: Seq<(Seq<char>, Seq<char>)>) -> Seq<char>;

/// The views of a list of name/value pairs.
pub open spec fn field_views(fields: Seq<(String, String)>) -> Seq<(Seq<char>, Seq<char>)> {
    fields.map_values(|f: (String, String)| (f.0@, f.1@))
}

/// `serde_json::Value::to_string` of the object built by inserting, in order,
/// each name with its value as a JSON string into a `serde_json::Map`. The text
/// is named, not spelled out: the order of the members and the escaping of the
/// strings are serde_json's.
#[verifier::external_body]
fn json_string_object(fields: &Vec<(String, String)>) -> (r: String)
    ensures
        r@ == json_string_object_text(field_views(fields@)),
{
    let mut object = serde_json::Map::new();
    for (name, value) in fields.iter() {
        object.insert(name.clone(), serde_json::Value::String(value.clone()));
    }
    serde_json::Value::Object(object).to_string()
}

/// The members of the sign-in request for a listening address.
pub open spec fn sign_in_fields(listener: Seq<char>) -> Seq<(Seq<char>, Seq<char>)> {
    seq![("operation"@, "client-record"@), ("data"@, listener)]
}

/// The JSON request by which a client asks to be recorded.
pub fn sign_in_request(listener: &str) -> (r: String)
    ensures
        r@ == json_string_object_text(sign_in_fields(listener@)),
{
    let mut fields: Vec<(String, String)> = Vec::new();
    fields.push((String::from_str("operation"), String::from_str("client-record")));
    fields.push((String::from_str("data"), String::from_str(listener)));
    assert(field_views(fields@) =~= sign_in_fields(listener@));
    json_string_object(&fields)
}

/// The answer by which the server accepts a sign-in.
pub open spec fn sign_in_accepted_reply() -> Seq<char> {
    "OK"@
}

/// Whether an answer accepts the sign-in (ASCII case ignored).
pub open spec fn accepts_sign_in(answer: Seq<char>) -> bool {
    ascii_case_insensitive_eq(encode_utf8(answer), encode_utf8(sign_in_accepted_reply()))
}

/// What happened last while signing in.
#[derive(Debug)]
pub enum SignInEvent {
    /// The server could not be reached.
    ConnectFailed,
    /// A connection to the server is open.
    Connected,
    /// The server answered the request with this text.
    Answered(String),
}

/// What the client does next while signing in.
#[derive(Debug, PartialEq, Eq)]
pub enum SignInAction {
    /// Wait this many seconds, then connect again.
    WaitAndRetry(u64),
    /// Send this request on the open connection and read the answer.
    Send(String),
    /// The client is recorded: stop.
    Finish,
}

/// The sign-in decision for each event, for a client listening on `listener`.
pub fn sign_in_step(event: &SignInEvent, listener: &str) -> (r: SignInAction)
    ensures
        match event {
            SignInEvent::ConnectFailed => r == SignInAction::WaitAndRetry(RETRY_DELAY_SECS),
            SignInEvent::Connected => r matches SignInAction::Send(m) && m@
                == json_string_object_text(sign_in_fields(listener@)),
            SignInEvent::Answered(answer) => if accepts_sign_in(answer@) {
                r == SignInAction::Finish
            } else {
                r == SignInAction::WaitAndRetry(RETRY_DELAY_SECS)
            },
        },
{
    match event {
        SignInEvent::ConnectFailed => SignInAction::WaitAndRetry(RETRY_DELAY_SECS),
        SignInEvent::Connected => SignInAction::Send(sign_in_request(listener)),
        SignInEvent::Answered(answer) => {
            if eq_ignore_ascii_case(answer.as_str(), "OK") {
                SignInAction::Finish
            } else {
                SignInAction::WaitAndRetry(RETRY_DELAY_SECS)
            }
        },
    }
}

/// How far a download has come, in bytes, against the announced total.
#[derive(Debug, Clone, Copy, PartialEq, Eq, Structural)]
pub struct DownloadProgress {
    pub downloaded: u64,
    pub total: u64,
}

/// The smaller of two numbers.
pub open spec fn min_u64(a: int, b: int) -> int {
    if a < b {
        a
    } else {
        b
    }
}

impl DownloadProgress {
    /// Starts a download of `total` bytes; a partial file of `existing` bytes
    /// is resumed.
    pub fn start(total: u64, existing: Option<u64>) -> (r: DownloadProgress)
        ensures
            r.total == total,
            r.downloaded == match existing {
                Some(n) => n,
                None => 0,
            },
    {
        match existing {
            Some(n) => DownloadProgress { downloaded: n, total },
            None => DownloadProgress { downloaded: 0, total },
        }
    }

    /// Accounts for one more chunk: the position advances by its length but
    /// never past the total.
    pub fn advance(&mut self, chunk_len: usize)
        requires
            old(self).downloaded + chunk_len <= u64::MAX,
        ensures
            final(self).total == old(self).total,
            final(self).downloaded == min_u64(old(self).downloaded + chunk_len, old(self).total as int),
            final(self).downloaded <= final(self).total,
            old(self).downloaded <= old(self).total ==> old(self).downloaded <= final(self).downloaded,
    {
        let next = self.downloaded + chunk_len as u64;
        self.downloaded = if next < self.total { next } else { self.total };
    }
}

/// Why a download failed.
#[derive(Debug, Clone, PartialEq, Eq)]
pub enum DownloadError {
    /// The GET request to this URL failed.
    Request(String),
    /// The response from this URL had no content length.
    ContentLength(String),
    /// The file at this path could not be created.
    CreateFile(String),
    /// A chunk of the body could not be read.
    Chunk,
    /// A chunk could not be written to the file.
    Write,
}

/// The message of a download error.
pub open spec fn download_error_text(e: DownloadError) -> Seq<char> {
    match e {
        DownloadError::Request(url) => "Failed to GET from '"@ + url@ + "'"@,
        DownloadError::ContentLength(url) => "Failed to get content length from '"@ + url@ + "'"@,
        DownloadError::CreateFile(path) => "Failed to create file '"@ + path@ + "'"@,
        DownloadError::Chunk => "Error while downloading file"@,
        DownloadError::Write => "Error while writing to file"@,
    }
}

impl DownloadError {
    /// The text that reports this error.
    pub fn message(&self) -> (r: String)
        ensures
            r@ == download_error_text(*self),
    {
        match self {
            DownloadError::Request(url) => {
                let mut m = String::from_str("Failed to GET from '");
                m.append(url.as_str());
                m.append("'");
                m
            },
            DownloadError::ContentLength(url) => {
                let mut m = String::from_str("Failed to get content length from '");
                m.append(url.as_str());
                m.append("'");
                m
            },
            DownloadError::CreateFile(path) => {
                let mut m = String::from_str("Failed to create file '");
                m.append(path.as_str());
                m.append("'");
                m
            },
            DownloadError::Chunk => String::from_str("Error while downloading file"),
            DownloadError::Write => String::from_str("Error while writing to file"),
        }
    }
}

/// The progress message shown while downloading from `url`.
pub fn downloading_message(url: &str) -> (r: String)
    ensures
        r@ == "Downloading "@ + url@,
{
    let mut m = String::from_str("Downloading ");
    m.append(url);
    m
}

/// The message shown once `url` has been saved at `path`.
pub fn downloaded_message(url: &str, path: &str) -> (r: String)
    ensures
        r@ == "Downloaded "@ + url@ + " to "@ + path@,
{
    let mut m = String::from_str("Downloaded ");
    m.append(url);
    m.append(" to ");
    m.append(path);
    m
}

/// What happened last on a connection opened by the server.
#[derive(Debug)]
pub enum ClientEvent {
    /// The server sent the URL of the file to fetch.
    UrlReceived(String),
    /// The file has been downloaded.
    Downloaded,
}

/// What the client does next on that connection.
#[derive(Debug, PartialEq, Eq)]
pub enum ClientAction {
    /// Download `url` into the file at `path`.
    Download { url: String, path: String },
    /// Answer the server with this text.
    Reply(String),
}

/// The answer that tells the server the file is down.
pub open spec fn download_done_reply() -> Seq<char> {
    "downloaded"@
}

/// The client's decision for each event of a connection from the server.
pub fn client_step(event: ClientEvent) -> (r: ClientAction)
    ensures
        match event {
            ClientEvent::UrlReceived(url) => r matches ClientAction::Download { url: u, path: p }
                && u == url && p@ == DOWNLOAD_PATH@,
            ClientEvent::Downloaded => r matches ClientAction::Reply(m) && m@
                == download_done_reply(),
        },
{
    match event {
        ClientEvent::UrlReceived(url) => ClientAction::Download {
            url,
            path: String::from_str(DOWNLOAD_PATH),
        },
        ClientEvent::Downloaded => ClientAction::Reply(String::from_str("downloaded")),
    }
}

/// The sign-in request names exactly two members: `operation`, set to
/// "client-record", then `data`, set to the whole listening address, whatever
/// its length.
pub proof fn law_sign_in_request_carries_listener(listener: Seq<char>)
    ensures
        sign_in_fields(listener).len() == 2,
        sign_in_fields(listener)[0] == ("operation"@, "client-record"@),
        sign_in_fields(listener)[1].0 == "data"@,
        sign_in_fields(listener)[1].1 == listener,
        sign_in_fields(listener)[1].1.len() == listener.len(),
{
}

/// `min_u64` is the minimum: no larger than either number, and one of them.
pub proof fn law_min_is_minimum(a: int, b: int)
    ensures
        min_u64(a, b) <= a,
        min_u64(a, b) <= b,
        min_u64(a, b) == a || min_u64(a, b) == b,
{
}
} // verus!
