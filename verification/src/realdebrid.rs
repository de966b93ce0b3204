use crate::text::{
    ends_with, is_suffix, joined, joined3, lowercase, push_signed_decimal, same_text,
    signed_decimal, to_chars, to_lowercase,
};

use vstd::prelude::*;
use vstd::string::*;

verus! {

/// The address under which the service's endpoints stand.
pub const BASE_URL: &'static str = "https://api.real-debrid.com/rest/1.0";

/// The token that the sample configuration holds in place of a real one.
pub const PLACEHOLDER_TOKEN: &'static str = "your_api_token_here";

/// A file of a remote job.
#[derive(Debug)]
pub struct TorrentFile {
    pub id: u32,
    pub path: String,
    pub bytes: u64,
    pub selected: bool,
}

impl Clone for TorrentFile {
    fn clone(&self) -> (c: Self)
        ensures
            c == *self,
    {
        TorrentFile { id: self.id, path: self.path.clone(), bytes: self.bytes, selected: self.selected }
    }
}

/// The account that a token belongs to.
#[derive(Debug)]
pub struct UserInfo {
    pub username: String,
    pub expiration: String,
    pub account_type: String,
}

/// The part of `path` behind its last `/`; all of it where it holds none.
pub open spec fn after_last_slash(path: Seq<char>) -> Seq<char>
    decreases path.len(),
{
    if path.len() == 0 {
        path
    } else if path.last() == '/' {
        Seq::empty()
    } else {
        after_last_slash(path.drop_last()).push(path.last())
    }
}

/// A tail of `path` that holds no `/` and stands at the start or behind a `/`
/// is the part behind the last `/`.
pub proof fn lemma_after_last_slash(path: Seq<char>, start: int)
    requires
        0 <= start <= path.len(),
        forall|k: int| start <= k < path.len() ==> path[k] != '/',
        start == 0 || path[start - 1] == '/',
    ensures
        after_last_slash(path) == path.subrange(start, path.len() as int),
    decreases path.len(),
{
    if path.len() == 0 {
        assert(path.subrange(start, path.len() as int) =~= path);
    } else if start == path.len() {
        assert(path.subrange(start, path.len() as int) =~= Seq::empty());
    } else {
        let front = path.drop_last();
        lemma_after_last_slash(front, start);
        assert(path.subrange(start, path.len() as int) =~= front.subrange(
            start,
            front.len() as int,
        ).push(path.last()));
    }
}

impl TorrentFile {
    /// The file's name: its path without the directories.
    pub fn name(&self) -> (n: &str)
        ensures
            n@ == after_last_slash(self.path@),
    {
        let chars = to_chars(self.path.as_str());
        let mut start: usize = chars.len();
        while start > 0 && chars[start - 1] != '/'
            invariant
                start <= chars.len(),
                forall|k: int| start <= k < chars.len() ==> chars@[k] != '/',
            decreases start,
        {
            start -= 1;
        }
        proof {
            lemma_after_last_slash(chars@, start as int);
        }
        self.path.as_str().substring_char(start, chars.len())
    }

    /// The file's size for reading, such as `1.5 GB`.
    pub fn size_str(&self) -> (s: String)
        ensures
            s@ == crate::units::bytes_text(self.bytes as nat),
    {
        crate::units::format_bytes(self.bytes)
    }
}

/// The size above which a file is worth showing whatever its name, in bytes.
pub const LARGE_FILE_BYTES: u64 = 50_000_000;

/// A name, already in lower case, that ends like a video file.
pub open spec fn is_video_name(lower: Seq<char>) -> bool {
    ||| is_suffix("mkv"@, lower)
    ||| is_suffix("mp4"@, lower)
    ||| is_suffix("avi"@, lower)
    ||| is_suffix("mov"@, lower)
    ||| is_suffix("wmv"@, lower)
    ||| is_suffix("flv"@, lower)
    ||| is_suffix("webm"@, lower)
    ||| is_suffix("m4v"@, lower)
}

/// A name, already in lower case, that ends like an archive.
pub open spec fn is_archive_name(lower: Seq<char>) -> bool {
    ||| is_suffix("rar"@, lower)
    ||| is_suffix("zip"@, lower)
    ||| is_suffix("7z"@, lower)
    ||| is_suffix("tar"@, lower)
    ||| is_suffix("gz"@, lower)
}

/// A file worth showing: a video, an archive, or a large file.
pub open spec fn is_useful(lower: Seq<char>, bytes: u64) -> bool {
    is_video_name(lower) || is_archive_name(lower) || bytes > LARGE_FILE_BYTES
}

/// Whether a file of the job is worth showing.
pub open spec fn is_useful_file(f: TorrentFile) -> bool {
    is_useful(lowercase(after_last_slash(f.path@)), f.bytes)
}

/// The files that the selection screen shows: the useful ones, or all of
/// them where none is useful.
pub open spec fn shown_files(files: Seq<TorrentFile>) -> Seq<TorrentFile> {
    let useful = files.filter(|f: TorrentFile| is_useful_file(f));
    if useful.len() == 0 {
        files
    } else {
        useful
    }
}

/// Whether a file with this name, given in lower case, and this size is
/// worth showing.
pub fn useful_name(lower: &str, bytes: u64) -> (b: bool)
    ensures
        b == is_useful(lower@, bytes),
{
    let video = ends_with(lower, "mkv") || ends_with(lower, "mp4") || ends_with(lower, "avi")
        || ends_with(lower, "mov") || ends_with(lower, "wmv") || ends_with(lower, "flv")
        || ends_with(lower, "webm") || ends_with(lower, "m4v");
    let archive = ends_with(lower, "rar") || ends_with(lower, "zip") || ends_with(lower, "7z")
        || ends_with(lower, "tar") || ends_with(lower, "gz");
    video || archive || bytes > LARGE_FILE_BYTES
}

/// The files that the selection screen shows.
pub fn files_to_show(files: Vec<TorrentFile>) -> (shown: Vec<TorrentFile>)
    ensures
        shown@ == shown_files(files@),
{
    let ghost pred = |f: TorrentFile| is_useful_file(f);
    let mut useful: Vec<TorrentFile> = Vec::new();
    let mut i: usize = 0;
    assert(files@.take(0) =~= Seq::empty());
    while i < files.len()
        invariant
            i <= files.len(),
            pred == |f: TorrentFile| is_useful_file(f),
            useful@ == files@.take(i as int).filter(pred),
        decreases files.len() - i,
    {
        let lower = to_lowercase(files[i].name());
        proof {
            assert(files@.take(i + 1) =~= files@.take(i as int).push(files@[i as int]));
            files@.take(i as int).lemma_filter_push(files@[i as int], pred);
        }
        if useful_name(lower.as_str(), files[i].bytes) {
            useful.push(files[i].clone());
        }
        i += 1;
    }
    assert(files@.take(files.len() as int) =~= files@);
    if useful.len() == 0 {
        files
    } else {
        useful
    }
}

/// Why a call of the resolution service failed.
#[derive(Debug)]
pub enum RdError {
    /// No credential was given at all.
    NotSet,
    /// The credential is empty or the placeholder of the sample configuration.
    NotConfigured,
    /// The method is none of GET, POST and DELETE.
    UnsupportedMethod(String),
    /// The request did not get through; the text says why.
    Transport(String),
    /// The service answered with a failure of its own.
    Remote { message: String, code: Option<i32> },
    /// The service answered with a failure status and a body that is no
    /// failure of its own; `status` is the status line.
    Http { status: String, body: String },
    /// The answer was not of the expected shape; the text says why.
    Parse(String),
    /// The service refused the magnet link.
    InvalidMagnet,
    /// The file listing did not come within the polling budget.
    MagnetTimeout,
    /// The remote job ended in the failure status given.
    TorrentFailed(String),
    /// The remote job is done and has no links.
    NoLinks,
    /// The links did not come within the waiting budget.
    TorrentTimeout,
    /// An event came that the job was not waiting for.
    UnexpectedEvent,
}

/// An optional number as the service's failures show it.
pub open spec fn code_text(code: Option<i32>) -> Seq<char> {
    match code {
        Some(c) => "Some("@ + signed_decimal(c as int) + ")"@,
        None => "None"@,
    }
}

impl RdError {
    /// The text that says what went wrong.
    pub open spec fn text(self) -> Seq<char> {
        match self {
            RdError::NotSet => "RD_API_TOKEN not set in environment"@,
            RdError::NotConfigured => "RD_API_TOKEN not configured"@,
            RdError::UnsupportedMethod(m) => "Unsupported method: "@ + m@,
            RdError::Transport(why) => why@,
            RdError::Remote { message, code } => "Real-Debrid error: "@ + message@ + " (code: "@
                + code_text(code) + ")"@,
            RdError::Http { status, body } => "Real-Debrid error: "@ + status@ + " - "@ + body@,
            RdError::Parse(why) => "JSON parse error: "@ + why@,
            RdError::InvalidMagnet => "Invalid magnet link"@,
            RdError::MagnetTimeout => "Timeout waiting for magnet to resolve"@,
            RdError::TorrentFailed(status) => "Torrent failed with status: "@ + status@,
            RdError::NoLinks => "No download links available"@,
            RdError::TorrentTimeout => "Timeout waiting for torrent"@,
            RdError::UnexpectedEvent => "Unexpected event for the job"@,
        }
    }

    /// The text that says what went wrong.
    pub fn message(&self) -> (m: String)
        ensures
            m@ == self.text(),
    {
        match self {
            RdError::NotSet => String::from_str("RD_API_TOKEN not set in environment"),
            RdError::NotConfigured => String::from_str("RD_API_TOKEN not configured"),
            RdError::UnsupportedMethod(m) => joined("Unsupported method: ", m.as_str()),
            RdError::Transport(why) => why.clone(),
            RdError::Remote { message, code } => {
                let mut m = joined3("Real-Debrid error: ", message.as_str(), " (code: ");
                match code {
                    Some(c) => {
                        m.append("Some(");
                        push_signed_decimal(&mut m, *c as i64);
                        m.append(")");
                    },
                    None => {
                        m.append("None");
                    },
                }
                m.append(")");
                assert(m@ =~= self.text());
                m
            },
            RdError::Http { status, body } => {
                let mut m = joined3("Real-Debrid error: ", status.as_str(), " - ");
                m.append(body.as_str());
                m
            },
            RdError::Parse(why) => joined("JSON parse error: ", why.as_str()),
            RdError::InvalidMagnet => String::from_str("Invalid magnet link"),
            RdError::MagnetTimeout => String::from_str("Timeout waiting for magnet to resolve"),
            RdError::TorrentFailed(status) => joined("Torrent failed with status: ", status.as_str()),
            RdError::NoLinks => String::from_str("No download links available"),
            RdError::TorrentTimeout => String::from_str("Timeout waiting for torrent"),
            RdError::UnexpectedEvent => String::from_str("Unexpected event for the job"),
        }
    }
}

/// A file of a remote job as the service lists it.
#[derive(Debug)]
pub struct ApiTorrentFile {
    pub id: u32,
    pub path: String,
    pub bytes: u64,
    /// 1 where the file is selected.
    pub selected: Option<u8>,
}

/// What the service tells of a remote job.
#[derive(Debug)]
pub struct TorrentInfo {
    pub id: String,
    pub status: String,
    pub files: Option<Vec<ApiTorrentFile>>,
    pub links: Option<Vec<String>>,
    /// Percent complete, in whole percent.
    pub progress: Option<u64>,
    /// Transfer rate in bytes per second.
    pub speed: Option<u64>,
    pub seeders: Option<u32>,
}

/// A link that the service made directly downloadable.
#[derive(Debug)]
pub struct UnrestrictedLink {
    pub filename: String,
    pub download: String,
    pub filesize: Option<u64>,
}

/// The file of the session for a file that the service lists.
pub open spec fn listed_file(f: ApiTorrentFile) -> TorrentFile {
    TorrentFile { id: f.id, path: f.path, bytes: f.bytes, selected: f.selected == Some(1u8) }
}

/// The files that an answer of the service lists; none where it lists none.
pub open spec fn listed_files(files: Option<Vec<ApiTorrentFile>>) -> Seq<TorrentFile> {
    match files {
        Some(list) => list@.map_values(|f: ApiTorrentFile| listed_file(f)),
        None => Seq::empty(),
    }
}

/// The files that an answer of the service lists.
pub fn files_of(files: Option<Vec<ApiTorrentFile>>) -> (out: Vec<TorrentFile>)
    ensures
        out@ == listed_files(files),
{
    let mut out: Vec<TorrentFile> = Vec::new();
    match files {
        Some(list) => {
            let ghost given = list@;
            let mut rest = crate::lists::reversed(list);
            let ghost mut done: int = 0;
            while rest.len() > 0
                invariant
                    0 <= done <= given.len(),
                    done + rest.len() == given.len(),
                    rest@ == given.reverse().take(rest.len() as int),
                    out@ == given.take(done).map_values(|f: ApiTorrentFile| listed_file(f)),
                decreases rest.len(),
            {
                let f = rest.pop().unwrap();
                proof {
                    assert(f == given[done]);
                    assert(given.take(done + 1) =~= given.take(done).push(f));
                    given.take(done).lemma_push_map_commute(|f: ApiTorrentFile| listed_file(f), f);
                    done = done + 1;
                }
                let selected = match f.selected {
                    Some(flag) => flag == 1,
                    None => false,
                };
                out.push(TorrentFile { id: f.id, path: f.path, bytes: f.bytes, selected });
            }
            assert(given.take(done) =~= given);
        },
        None => {},
    }
    out
}

/// How a request is sent.
#[derive(Clone, Copy, Debug, PartialEq, Eq, Structural)]
pub enum Method {
    Get,
    Post,
    Delete,
}

/// The method that `name` stands for.
pub fn parse_method(name: &str) -> (r: Result<Method, RdError>)
    ensures
        name@ == "GET"@ ==> r == Ok::<Method, RdError>(Method::Get),
        name@ != "GET"@ && name@ == "POST"@ ==> r == Ok::<Method, RdError>(Method::Post),
        name@ != "GET"@ && name@ != "POST"@ && name@ == "DELETE"@ ==> r == Ok::<Method, RdError>(
            Method::Delete,
        ),
        name@ != "GET"@ && name@ != "POST"@ && name@ != "DELETE"@ ==> (r matches Err(
            RdError::UnsupportedMethod(m),
        ) && m@ == name@),
{
    if same_text(name, "GET") {
        Ok(Method::Get)
    } else if same_text(name, "POST") {
        Ok(Method::Post)
    } else if same_text(name, "DELETE") {
        Ok(Method::Delete)
    } else {
        Err(RdError::UnsupportedMethod(String::from_str(name)))
    }
}

/// A call of the service: where it goes and what form it carries.
#[derive(Debug)]
pub struct ApiRequest {
    pub method: Method,
    /// The path below the base address.
    pub endpoint: String,
    /// The one field of the form, as name and value, for a POST.
    pub form: Option<(String, String)>,
}

/// `r` is the call with this method, endpoint and form.
pub open spec fn is_request(
    r: ApiRequest,
    method: Method,
    endpoint: Seq<char>,
    form: Option<(Seq<char>, Seq<char>)>,
) -> bool {
    &&& r.method == method
    &&& r.endpoint@ == endpoint
    &&& match (r.form, form) {
        (Some(have), Some(want)) => have.0@ == want.0 && have.1@ == want.1,
        (None, None) => true,
        _ => false,
    }
}

impl ApiRequest {
    /// The call that asks for the account.
    pub fn user() -> (r: ApiRequest)
        ensures
            is_request(r, Method::Get, "/user"@, None),
    {
        ApiRequest { method: Method::Get, endpoint: String::from_str("/user"), form: None }
    }

    /// The call that submits a magnet link.
    pub fn add_magnet(magnet: &str) -> (r: ApiRequest)
        ensures
            is_request(r, Method::Post, "/torrents/addMagnet"@, Some(("magnet"@, magnet@))),
    {
        ApiRequest {
            method: Method::Post,
            endpoint: String::from_str("/torrents/addMagnet"),
            form: Some((String::from_str("magnet"), String::from_str(magnet))),
        }
    }

    /// The call that asks for the state of a remote job.
    pub fn torrent_info(torrent_id: &str) -> (r: ApiRequest)
        ensures
            is_request(r, Method::Get, "/torrents/info/"@ + torrent_id@, None),
    {
        ApiRequest { method: Method::Get, endpoint: joined("/torrents/info/", torrent_id), form: None }
    }

    /// The call that selects files of a remote job; `files` holds their
    /// identifiers, separated by commas.
    pub fn select_files(torrent_id: &str, files: &str) -> (r: ApiRequest)
        ensures
            is_request(
                r,
                Method::Post,
                "/torrents/selectFiles/"@ + torrent_id@,
                Some(("files"@, files@)),
            ),
    {
        ApiRequest {
            method: Method::Post,
            endpoint: joined("/torrents/selectFiles/", torrent_id),
            form: Some((String::from_str("files"), String::from_str(files))),
        }
    }

    /// The call that makes a link of a remote job directly downloadable.
    pub fn unrestrict_link(link: &str) -> (r: ApiRequest)
        ensures
            is_request(r, Method::Post, "/unrestrict/link"@, Some(("link"@, link@))),
    {
        ApiRequest {
            method: Method::Post,
            endpoint: String::from_str("/unrestrict/link"),
            form: Some((String::from_str("link"), String::from_str(link))),
        }
    }

    /// The call that deletes a remote job.
    pub fn delete_torrent(torrent_id: &str) -> (r: ApiRequest)
        ensures
            is_request(r, Method::Delete, "/torrents/delete/"@ + torrent_id@, None),
    {
        ApiRequest {
            method: Method::Delete,
            endpoint: joined("/torrents/delete/", torrent_id),
            form: None,
        }
    }

    /// The full address of the call.
    pub fn url(&self) -> (u: String)
        ensures
            u@ == BASE_URL@ + self.endpoint@,
    {
        joined(BASE_URL, self.endpoint.as_str())
    }
}

/// What the status of an answer says of its body.
#[derive(Clone, Copy, Debug, PartialEq, Eq, Structural)]
pub enum ResponseKind {
    /// Status 204: success without a body, to be read as an empty object.
    NoContent,
    /// Another status from 200 to 299: the body holds the answer.
    Success,
    /// Any other status: the body holds the failure.
    Failure,
}

/// What the status of an answer says of its body.
pub fn response_kind(status: u16) -> (k: ResponseKind)
    ensures
        k == if status == 204 {
            ResponseKind::NoContent
        } else if 200 <= status <= 299 {
            ResponseKind::Success
        } else {
            ResponseKind::Failure
        },
{
    if status == 204 {
        ResponseKind::NoContent
    } else if 200 <= status && status <= 299 {
        ResponseKind::Success
    } else {
        ResponseKind::Failure
    }
}

/// The error for an answer with a failure status: the service's own failure
/// where the body held one, as message and optional code, and else the
/// status line with the body.
pub fn failure_error(status_line: String, body: String, failure: Option<(String, Option<i32>)>) -> (e:
    RdError)
    ensures
        e == match failure {
            Some(f) => RdError::Remote { message: f.0, code: f.1 },
            None => RdError::Http { status: status_line, body: body },
        },
{
    match failure {
        Some(f) => RdError::Remote { message: f.0, code: f.1 },
        None => RdError::Http { status: status_line, body },
    }
}

/// The client of the resolution service: it holds the credential, builds the
/// calls and reads the answers; sending is left to the caller.
#[derive(Debug)]
pub struct RealDebridClient {
    pub api_token: String,
}

impl Clone for RealDebridClient {
    fn clone(&self) -> (c: Self)
        ensures
            c == *self,
    {
        RealDebridClient { api_token: self.api_token.clone() }
    }
}

impl RealDebridClient {
    /// A client for the credential given, which must be there, not empty and
    /// not the placeholder of the sample configuration.
    pub fn new(api_token: Option<String>) -> (r: Result<RealDebridClient, RdError>)
        ensures
            r == match api_token {
                None => Err::<RealDebridClient, RdError>(RdError::NotSet),
                Some(token) => if token@.len() == 0 || token@ == PLACEHOLDER_TOKEN@ {
                    Err(RdError::NotConfigured)
                } else {
                    Ok(RealDebridClient { api_token: token })
                },
            },
    {
        match api_token {
            None => Err(RdError::NotSet),
            Some(token) => {
                if token.as_str().is_empty() || same_text(token.as_str(), PLACEHOLDER_TOKEN) {
                    Err(RdError::NotConfigured)
                } else {
                    Ok(RealDebridClient { api_token: token })
                }
            },
        }
    }

    /// The value of the header that carries the credential.
    pub fn authorization(&self) -> (h: String)
        ensures
            h@ == "Bearer "@ + self.api_token@,
    {
        joined("Bearer ", self.api_token.as_str())
    }
}

} // verus!
