//! The metadata record of one archive item, and what is derived from it.

use vstd::prelude::*;
use vstd::string::StringExecFns;
use vstd::utf8::encode_utf8;

use crate::percent::{lemma_decode_encode, lemma_encode_has_no_slash, percent_decode, percent_encode};

verus! {

/// One archived file of an item.
#[derive(Debug, Clone)]
pub struct MetadataFile {
    pub name: String,
    pub source: String,
    pub format: String,
    pub mtime: Option<String>,
    pub size: Option<String>,
    pub md5: Option<String>,
    pub crc32: Option<String>,
    pub sha1: Option<String>,
}

/// The descriptive part of an item.
#[derive(Debug, Clone)]
pub struct MetadataData {
    pub mediatype: String,
    pub title: String,
}

/// The metadata record of one item.
#[derive(Debug, Clone)]
pub struct Metadata {
    pub created: u64,
    pub d1: String,
    pub d2: String,
    pub dir: String,
    pub files: Vec<MetadataFile>,
    /// The number of files the service reports; not checked against `files`.
    pub files_count: u64,
    pub item_last_updated: u64,
    pub item_size: u64,
    pub metadata: MetadataData,
    pub server: String,
    pub uniq: u64,
    pub workable_servers: Vec<String>,
}

/// What can go wrong when fetching metadata or deriving a file's URL.
#[derive(Debug)]
pub enum MetadataError {
    /// The request to `filename` (the endpoint URL) failed, or its body could not be read.
    DownloadFailed { filename: String, source: reqwest::Error },
    /// The body was not a metadata record in JSON.
    ParseFailed { source: serde_json::Error },
    /// The item holds no file of this name.
    FileNotFound { filename: String },
}

/// The endpoint that serves the metadata of the item `item`.
pub open spec fn request_url_of(item: Seq<char>) -> Seq<char> {
    "https://archive.org/metadata/"@ + item
}

/// Whether some entry of `files` is named exactly `name`.
pub open spec fn has_file(files: Seq<MetadataFile>, name: Seq<char>) -> bool {
    exists|i: int| 0 <= i < files.len() && (#[trigger] files[i]).name@ == name
}

/// What precedes the file's own segment in its download URL.
pub open spec fn file_url_prefix(d1: Seq<char>, dir: Seq<char>) -> Seq<char> {
    "https://"@ + d1 + dir + "/"@
}

/// The direct download URL of the file `name` on host `d1` under `dir`.
pub open spec fn file_url(d1: Seq<char>, dir: Seq<char>, name: Seq<char>) -> Seq<char> {
    file_url_prefix(d1, dir) + percent_encode(encode_utf8(name))
}

/// Relies on urlencoding::encode: each byte of the UTF-8 form of `s` but ASCII
/// letters, digits and `-`, `.`, `_`, `~` becomes `%` and two upper-case hex digits.
#[verifier::external_body]
fn url_encode(s: &str) -> (r: String)
    ensures
        r@ == percent_encode(encode_utf8(s@)),
{
    urlencoding::encode(s).into_owned()
}

impl Metadata {
    /// Whether the item holds a file named exactly `name`.
    pub open spec fn has_file(&self, name: Seq<char>) -> bool {
        has_file(self.files@, name)
    }

    /// Whether the item holds a file named exactly `filename` (case-sensitive,
    /// no normalization).
    pub fn file_exist(&self, filename: &str) -> (r: bool)
        ensures
            r == self.has_file(filename@),
    {
        let target = String::from_str(filename);
        let mut i: usize = 0;
        while i < self.files.len()
            invariant
                i <= self.files@.len(),
                target@ == filename@,
                forall|j: int| 0 <= j < i ==> (#[trigger] self.files@[j]).name@ != filename@,
            decreases self.files@.len() - i,
        {
            if self.files[i].name == target {
                assert(self.files@[i as int].name@ == filename@);
                return true;
            }
            i = i + 1;
        }
        false
    }

    /// The direct download URL of the file `filename`: `https://`, `d1`, `dir`,
    /// `/` and the percent-encoded name; `FileNotFound` where the item holds
    /// no such file.
    pub fn fileurl_get(&self, filename: &str) -> (r: Result<String, MetadataError>)
        ensures
            self.has_file(filename@) ==> (r matches Ok(url) && url@ == file_url(
                self.d1@,
                self.dir@,
                filename@,
            )),
            !self.has_file(filename@) ==> (r matches Err(MetadataError::FileNotFound { filename: f })
                && f@ == filename@),
    {
        if !self.file_exist(filename) {
            return Err(MetadataError::FileNotFound { filename: String::from_str(filename) });
        }
        let mut url = String::from_str("https://");
        url.append(self.d1.as_str());
        url.append(self.dir.as_str());
        url.append("/");
        let encoded = url_encode(filename);
        url.append(encoded.as_str());
        Ok(url)
    }

    /// The endpoint URL for the item `item`; the identifier is not escaped.
    pub fn request_url(item: &str) -> (r: String)
        ensures
            r@ == request_url_of(item@),
    {
        let mut url = String::from_str("https://archive.org/metadata/");
        url.append(item);
        url
    }

    /// The outcome of fetching the body from `url`: the body itself, or
    /// `DownloadFailed` with the URL and the transport error.
    pub fn from_download(url: &str, body: Result<String, reqwest::Error>) -> (r: Result<String, MetadataError>)
        ensures
            match body {
                Ok(text) => r matches Ok(t) && t@ == text@,
                Err(e) => r matches Err(MetadataError::DownloadFailed { filename, source }) && filename@
                    == url@ && source == e,
            },
    {
        match body {
            Ok(text) => Ok(text),
            Err(e) => Err(MetadataError::DownloadFailed { filename: String::from_str(url), source: e }),
        }
    }

    /// The outcome of reading the body as a record: the record whole, or
    /// `ParseFailed` with the reader's error and no record at all.
    pub fn from_parse(parsed: Result<Metadata, serde_json::Error>) -> (r: Result<Metadata, MetadataError>)
        ensures
            match parsed {
                Ok(m) => r == Ok::<Metadata, MetadataError>(m),
                Err(e) => r == Err::<Metadata, MetadataError>(MetadataError::ParseFailed { source: e }),
            },
    {
        match parsed {
            Ok(m) => Ok(m),
            Err(e) => Err(MetadataError::ParseFailed { source: e }),
        }
    }
}

/// A derived URL starts with `https://`, `d1`, `dir` and `/`; what follows
/// holds no `/`, and decoding it gives back the UTF-8 bytes of the file name.
pub proof fn lemma_file_url_round_trip(d1: Seq<char>, dir: Seq<char>, name: Seq<char>)
    ensures
        file_url(d1, dir, name).subrange(0, file_url_prefix(d1, dir).len() as int)
            == file_url_prefix(d1, dir),
        forall|i: int|
            file_url_prefix(d1, dir).len() <= i < file_url(d1, dir, name).len() ==> #[trigger] file_url(
                d1,
                dir,
                name,
            )[i] != '/',
        percent_decode(file_url(d1, dir, name).skip(file_url_prefix(d1, dir).len() as int))
            == encode_utf8(name),
{
    let prefix = file_url_prefix(d1, dir);
    let seg = percent_encode(encode_utf8(name));
    let url = file_url(d1, dir, name);
    assert(url.subrange(0, prefix.len() as int) =~= prefix);
    assert(url.skip(prefix.len() as int) =~= seg);
    lemma_decode_encode(encode_utf8(name));
    lemma_encode_has_no_slash(encode_utf8(name));
    assert forall|i: int| prefix.len() <= i < url.len() implies #[trigger] url[i] != '/' by {
        assert(url[i] == seg[i - prefix.len()]);
    }
}

} // verus!
