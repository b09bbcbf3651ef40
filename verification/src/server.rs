//! Decisions of the server: which operation a request asks for, what to answer,
//! which shared file is offered and under which URL, and when a client has
//! confirmed its download.

use vstd::prelude::*;
use vstd::string::StringSliceAdditionalSpecFns;
use vstd::string::StringExecFns;
use vstd::utf8::*;
use crate::text::{ascii_case_insensitive_eq, eq_ignore_ascii_case};

verus! {

broadcast use group_utf8_lib;

/// Where the server's HTTP side serves the shared files.
pub const BASE_URL: &'static str = "http://192.168.1.161:8080/";

/// A request as the server receives it: an operation name and optional data.
#[derive(Debug, Clone)]
pub struct Request {
    pub operation: String,
    pub data: Option<String>,
}

/// The operations the server knows.
#[derive(Debug, Clone, Copy, PartialEq, Eq, Structural)]
pub enum Operation {
    ClientRecord,
    Broadcast,
}

/// What `str::to_lowercase` gives for a text: its Unicode lowercase form.
pub uninterp spec fn unicode_lowercase(s: Seq<char>) -> Seq<char>;

/// ASCII lowercase of a character sequence: `'A'..='Z'` become `'a'..='z'`.
pub open spec fn ascii_lowercase(s: Seq<char>) -> Seq<char> {
    Seq::new(
        s.len(),
        |i: int|
            if 'A' <= s[i] <= 'Z' {
                ((s[i] as u32) + 32) as char
            } else {
                s[i]
            },
    )
}

/// `str::to_lowercase`: the Unicode lowercase form of the text; on an ASCII
/// text that is its ASCII lowercase form.
#[verifier::external_body]
fn to_lowercase(s: &str) -> (r: String)
    ensures
        r@ == unicode_lowercase(s@),
        is_ascii_chars(s@) ==> r@ == ascii_lowercase(s@),
{
    s.to_lowercase()
}

/// The operation that an already lowercased name denotes.
pub open spec fn operation_named(lower: Seq<char>) -> Option<Operation> {
    if lower == "client-record"@ {
        Some(Operation::ClientRecord)
    } else if lower == "broadcast"@ {
        Some(Operation::Broadcast)
    } else {
        None
    }
}

/// The operation that a request names, compared after Unicode lowercasing.
pub open spec fn requested_operation(name: Seq<char>) -> Option<Operation> {
    operation_named(unicode_lowercase(name))
}

/// Reads an operation name, ignoring case.
pub fn parse_operation(operation_str: &str) -> (r: Option<Operation>)
    ensures
        r == requested_operation(operation_str@),
        is_ascii_chars(operation_str@) ==> r == operation_named(ascii_lowercase(operation_str@)),
{
    let lower = to_lowercase(operation_str);
    if lower == String::from_str("client-record") {
        Some(Operation::ClientRecord)
    } else if lower == String::from_str("broadcast") {
        Some(Operation::Broadcast)
    } else {
        None
    }
}

/// What happened last on a server connection.
#[derive(Debug)]
pub enum ServerEvent {
    /// A request was read and parsed.
    RequestReceived(Request),
    /// The client registry was asked to record a client; the value is what it
    /// reported (1 when the client was written).
    ClientSaved(u16),
    /// A broadcast to every registered client has finished.
    BroadcastFinished,
}

/// What the server does next on that connection.
#[derive(Debug)]
pub enum ServerAction {
    /// Record the client whose address the request carried (the address is
    /// passed on as the request gave it, absent or not).
    SaveClient(Option<String>),
    /// Offer the shared file to every registered client.
    Broadcast,
    /// Answer the requester with this text and close.
    Reply(String),
}

/// The answer to a request for an unknown operation.
pub open spec fn error_reply() -> Seq<char> {
    "ERROR"@
}

/// The answer once a request was carried out.
pub open spec fn ok_reply() -> Seq<char> {
    "OK"@
}

/// The answer when recording a client was not confirmed.
pub open spec fn not_saved_reply() -> Seq<char> {
    "NO"@
}

/// The server's decision for each event of a connection.
pub fn server_step(event: ServerEvent) -> (r: ServerAction)
    ensures
        match event {
            ServerEvent::RequestReceived(req) => match requested_operation(req.operation@) {
                Some(Operation::ClientRecord) => r == ServerAction::SaveClient(req.data),
                Some(Operation::Broadcast) => r is Broadcast,
                None => r matches ServerAction::Reply(m) && m@ == error_reply(),
            },
            ServerEvent::ClientSaved(n) => r matches ServerAction::Reply(m) && m@ == (if n == 1 {
                ok_reply()
            } else {
                not_saved_reply()
            }),
            ServerEvent::BroadcastFinished => r matches ServerAction::Reply(m) && m@ == ok_reply(),
        },
{
    match event {
        ServerEvent::RequestReceived(req) => match parse_operation(req.operation.as_str()) {
            Some(Operation::ClientRecord) => ServerAction::SaveClient(req.data),
            Some(Operation::Broadcast) => ServerAction::Broadcast,
            None => ServerAction::Reply(String::from_str("ERROR")),
        },
        ServerEvent::ClientSaved(n) => {
            if n == 1 {
                ServerAction::Reply(String::from_str("OK"))
            } else {
                ServerAction::Reply(String::from_str("NO"))
            }
        },
        ServerEvent::BroadcastFinished => ServerAction::Reply(String::from_str("OK")),
    }
}

/// One entry of the shared directory: its path and whether it is a directory.
#[derive(Debug, Clone)]
pub struct SharedEntry {
    pub path: String,
    pub is_dir: bool,
}

/// The path of the last entry that is not a directory, or the empty text when
/// there is none.
pub open spec fn last_file_path(entries: Seq<SharedEntry>) -> Seq<char>
    decreases entries.len(),
{
    if entries.len() == 0 {
        Seq::empty()
    } else if !entries.last().is_dir {
        entries.last().path@
    } else {
        last_file_path(entries.drop_last())
    }
}

/// The file offered in a broadcast: the last file listed in the shared directory.
pub fn shared_file_path(entries: &Vec<SharedEntry>) -> (r: String)
    ensures
        r@ == last_file_path(entries@),
{
    let mut fullpath = String::new();
    let mut i: usize = 0;
    while i < entries.len()
        invariant
            i <= entries.len(),
            fullpath@ == last_file_path(entries@.take(i as int)),
        decreases entries.len() - i,
    {
        assert(entries@.take(i + 1).drop_last() =~= entries@.take(i as int));
        if !entries[i].is_dir {
            fullpath = entries[i].path.clone();
        }
        i = i + 1;
    }
    assert(entries@.take(entries.len() as int) =~= entries@);
    fullpath
}

/// The URL of a shared file: the base URL followed by the path without its
/// first two bytes (the leading "./").
pub open spec fn url_for(path_bytes: Seq<u8>) -> Seq<char> {
    BASE_URL@ + decode_utf8(path_bytes.subrange(2, path_bytes.len() as int))
}

/// The URL under which clients download a shared file. Byte 2 of the path must
/// start a character (or end the path).
pub fn download_url(fullpath: &str) -> (r: String)
    requires
        is_char_boundary(fullpath.spec_bytes(), 2),
    ensures
        r@ == url_for(fullpath.spec_bytes()),
{
    let (_, file_to_send) = fullpath.split_at(2);
    proof {
        encode_utf8_decode_utf8(file_to_send@);
    }
    let mut url = String::from_str(BASE_URL);
    url.append(file_to_send);
    url
}

/// The text by which a client confirms that it has downloaded the file.
pub open spec fn download_confirmation() -> Seq<char> {
    "downloaded"@
}

/// Whether a client's answer confirms its download (ASCII case ignored).
pub fn confirms_download(response: &str) -> (r: bool)
    ensures
        r == ascii_case_insensitive_eq(response.spec_bytes(), encode_utf8(download_confirmation())),
{
    eq_ignore_ascii_case(response, "downloaded")
}

proof fn lemma_last_file_at(entries: Seq<SharedEntry>, k: int)
    requires
        0 <= k < entries.len(),
        !entries[k].is_dir,
        forall|j: int| k < j < entries.len() ==> (#[trigger] entries[j]).is_dir,
    ensures
        last_file_path(entries) == entries[k].path@,
    decreases entries.len(),
{
    if k < entries.len() - 1 {
        let prefix = entries.drop_last();
        assert(entries[entries.len() - 1].is_dir);
        assert forall|j: int| k < j < prefix.len() implies (#[trigger] prefix[j]).is_dir by {
            assert(prefix[j] == entries[j]);
        }
        lemma_last_file_at(prefix, k);
    }
}

proof fn lemma_no_file(entries: Seq<SharedEntry>)
    requires
        forall|j: int| 0 <= j < entries.len() ==> (#[trigger] entries[j]).is_dir,
    ensures
        last_file_path(entries) == Seq::<char>::empty(),
    decreases entries.len(),
{
    if entries.len() > 0 {
        let prefix = entries.drop_last();
        assert(entries[entries.len() - 1].is_dir);
        assert forall|j: int| 0 <= j < prefix.len() implies (#[trigger] prefix[j]).is_dir by {
            assert(prefix[j] == entries[j]);
        }
        lemma_no_file(prefix);
    }
}

/// The offered file is the last file of the listing: when entry `k` is a file
/// and every later entry is a directory, the offered path is entry `k`'s path
/// (whatever `k` is, the first entry included); when every entry is a
/// directory, nothing is offered (the path is empty).
pub proof fn law_offered_file_is_last_file(entries: Seq<SharedEntry>)
    ensures
        forall|k: int|
            0 <= k < entries.len() && !(#[trigger] entries[k]).is_dir && (forall|j: int|
                k < j < entries.len() ==> entries[j].is_dir) ==> last_file_path(entries)
                == entries[k].path@,
        (forall|j: int| 0 <= j < entries.len() ==> (#[trigger] entries[j]).is_dir)
            ==> last_file_path(entries) == Seq::<char>::empty(),
{
    assert forall|k: int|
        0 <= k < entries.len() && !(#[trigger] entries[k]).is_dir && (forall|j: int|
            k < j < entries.len() ==> entries[j].is_dir) implies last_file_path(entries)
        == entries[k].path@ by {
        assert forall|j: int| k < j < entries.len() implies (#[trigger] entries[j]).is_dir by {}
        lemma_last_file_at(entries, k);
    }
    if forall|j: int| 0 <= j < entries.len() ==> (#[trigger] entries[j]).is_dir {
        lemma_no_file(entries);
    }
}

/// The download URL is the base URL followed by the path's own characters after
/// its first two bytes, unchanged: the URL starts with the base URL, and what
/// follows encodes back to exactly those bytes of the path.
pub proof fn law_url_is_base_then_path_tail(path_bytes: Seq<u8>)
    requires
        valid_utf8(path_bytes),
        is_char_boundary(path_bytes, 2),
    ensures
        url_for(path_bytes).len() >= BASE_URL@.len(),
        url_for(path_bytes).subrange(0, BASE_URL@.len() as int) == BASE_URL@,
        encode_utf8(url_for(path_bytes).skip(BASE_URL@.len() as int)) == path_bytes.subrange(
            2,
            path_bytes.len() as int,
        ),
{
    let tail = path_bytes.subrange(2, path_bytes.len() as int);
    valid_utf8_split(path_bytes, 2);
    decode_utf8_encode_utf8(tail);
    let u = url_for(path_bytes);
    assert(u.subrange(0, BASE_URL@.len() as int) =~= BASE_URL@);
    assert(u.skip(BASE_URL@.len() as int) =~= decode_utf8(tail));
}
} // verus!
