//! Documents the browser loads, and the kind of each.
use vstd::prelude::*;
use crate::fs::tar::file_index;
use crate::fs::vfs::{self, Vfs, VfsError, MAX_OPEN_FILES};
use crate::keyboard::KeyboardBuffer;
use crate::network::url::Url;
use crate::text::{
    chars_of, contains, contains_spec, decode_utf8, ends_with, ends_with_spec, lower_of, slice_chars, str_eq, to_lowercase,
    utf8_decode, vec_to_string,
};

verus! {

#[derive(Clone, Copy, Debug, PartialEq, Eq, Structural)]
pub enum ResourceType {
    Html,
    Css,
    JavaScript,
    Image,
    Unknown,
}

/// Kind of a document by the extension of its lower-cased path.
pub open spec fn type_of_path(p: Seq<char>) -> ResourceType {
    if ends_with_spec(p, ".html"@) || ends_with_spec(p, ".htm"@) {
        ResourceType::Html
    } else if ends_with_spec(p, ".css"@) {
        ResourceType::Css
    } else if ends_with_spec(p, ".js"@) {
        ResourceType::JavaScript
    } else if ends_with_spec(p, ".png"@) || ends_with_spec(p, ".jpg"@) || ends_with_spec(p, ".jpeg"@)
        || ends_with_spec(p, ".gif"@) {
        ResourceType::Image
    } else {
        ResourceType::Unknown
    }
}

/// Kind of a document by its lower-cased media type.
pub open spec fn type_of_content(c: Seq<char>) -> ResourceType {
    if contains_spec(c, "text/html"@) {
        ResourceType::Html
    } else if contains_spec(c, "text/css"@) {
        ResourceType::Css
    } else if contains_spec(c, "javascript"@) || contains_spec(c, "application/js"@) {
        ResourceType::JavaScript
    } else if contains_spec(c, "image/"@) {
        ResourceType::Image
    } else {
        ResourceType::Unknown
    }
}

impl ResourceType {
    /// From the URL's path extension, ignoring case.
    pub fn from_url(url: &Url) -> (r: Self)
        ensures
            r == type_of_path(lower_of(url.path@)),
    {
        let lower = to_lowercase(url.path.as_str());
        let path = lower.as_str();
        if ends_with(path, ".html") || ends_with(path, ".htm") {
            ResourceType::Html
        } else if ends_with(path, ".css") {
            ResourceType::Css
        } else if ends_with(path, ".js") {
            ResourceType::JavaScript
        } else if ends_with(path, ".png") || ends_with(path, ".jpg") || ends_with(path, ".jpeg") || ends_with(
            path,
            ".gif",
        ) {
            ResourceType::Image
        } else {
            ResourceType::Unknown
        }
    }

    /// From a Content-Type value, ignoring case.
    pub fn from_content_type(content_type: &str) -> (r: Self)
        ensures
            r == type_of_content(lower_of(content_type@)),
    {
        let lower = to_lowercase(content_type);
        let c = lower.as_str();
        if contains(c, "text/html") {
            ResourceType::Html
        } else if contains(c, "text/css") {
            ResourceType::Css
        } else if contains(c, "javascript") || contains(c, "application/js") {
            ResourceType::JavaScript
        } else if contains(c, "image/") {
            ResourceType::Image
        } else {
            ResourceType::Unknown
        }
    }
}

#[derive(Clone, Debug)]
pub struct Resource {
    pub url: Url,
    pub resource_type: ResourceType,
    pub data: Vec<u8>,
}

impl Resource {
    /// A document whose kind comes from its URL.
    pub fn new(url: Url, data: Vec<u8>) -> (r: Self)
        ensures
            r.url.parts() == url.parts(),
            r.data@ == data@,
            r.resource_type == type_of_path(lower_of(url.path@)),
    {
        let resource_type = ResourceType::from_url(&url);
        Resource { url, resource_type, data }
    }

    /// The contents as text, if they are valid UTF-8.
    pub fn as_string(&self) -> (r: Option<String>)
        ensures
            match utf8_decode(self.data@) {
                Some(s) => r matches Some(t) && t@ == s,
                None => r is None,
            },
    {
        decode_utf8(self.data.as_slice())
    }
}

#[derive(Clone, Copy, Debug, PartialEq, Eq, Structural)]
pub enum LoadError {
    UnsupportedScheme,
    HttpNotImplemented,
    File(VfsError),
}

/// The file-system path of a `file:` URL path: without its leading `/`.
pub open spec fn file_path_of(p: Seq<char>) -> Seq<char> {
    if p.len() > 0 && p[0] == '/' {
        p.drop_first()
    } else {
        p
    }
}

/// Loads documents named by URLs.
pub struct ResourceLoader {}

impl ResourceLoader {
    pub fn new() -> (r: Self) {
        ResourceLoader {}
    }

    /// A `file:` URL is read whole from the file system; `http:` and
    /// `https:` are not available yet; other schemes are refused.
    pub fn load(&self, fs: &mut Vfs, url: &Url) -> (r: Result<Resource, LoadError>)
        requires
            old(fs).wf(),
        ensures
            final(fs).wf(),
            url.scheme@ == "http"@ || url.scheme@ == "https"@ ==> r == Err::<Resource, LoadError>(LoadError::HttpNotImplemented),
            !(url.scheme@ == "http"@ || url.scheme@ == "https"@ || url.scheme@ == "file"@) ==> r == Err::<Resource, LoadError>(
                LoadError::UnsupportedScheme,
            ),
            url.scheme@ == "file"@ && file_index(old(fs).archive.entries_view(), file_path_of(url.path@), 0) is None ==> r
                == Err::<Resource, LoadError>(LoadError::File(VfsError::FileNotFound)),
            r matches Ok(res) ==> url.scheme@ == "file"@ && res.url.parts() == url.parts() && res.resource_type
                == type_of_path(lower_of(url.path@)),
    {
        let scheme = url.scheme.as_str();
        proof {
            reveal_strlit("http");
            reveal_strlit("https");
            reveal_strlit("file");
            assert("http"@[0] == 'h' && "https"@[0] == 'h' && "file"@[0] == 'f');
            assert("http"@ != "file"@ && "https"@ != "file"@);
        }
        if str_eq(scheme, "http") || str_eq(scheme, "https") {
            return Err(LoadError::HttpNotImplemented);
        }
        if !str_eq(scheme, "file") {
            return Err(LoadError::UnsupportedScheme);
        }
        let cs = chars_of(url.path.as_str());
        let start: usize = if cs.len() > 0 && cs[0] == '/' { 1 } else { 0 };
        let rel = vec_to_string(&slice_chars(&cs, start, cs.len()));
        proof {
            if cs@.len() > 0 && cs@[0] == '/' {
                assert(cs@.subrange(1, cs@.len() as int) =~= cs@.drop_first());
            } else {
                assert(cs@.subrange(0, cs@.len() as int) =~= cs@);
            }
        }
        assert(url.scheme@ != "http"@ && url.scheme@ != "https"@);
        let ghost entries = fs.archive.entries_view();
        let fd = match vfs::open(fs, rel.as_str()) {
            Ok(fd) => fd,
            Err(e) => {
                return Err(LoadError::File(e));
            },
        };
        let mut keyboard = KeyboardBuffer::new();
        let mut data: Vec<u8> = Vec::new();
        let mut buffer: Vec<u8> = Vec::new();
        let mut i: usize = 0;
        while i < 512
            invariant
                buffer@.len() == i,
                i <= 512,
            decreases 512 - i,
        {
            buffer.push(0);
            i = i + 1;
        }
        let mut rounds: usize = 0;
        loop
            invariant
                fs.wf(),
                keyboard.wf(),
                3 <= fd.0 < MAX_OPEN_FILES,
                url.scheme@ == "file"@,
                url.scheme@ != "http"@ && url.scheme@ != "https"@,
                fs.archive.entries_view() == entries,
                entries == old(fs).archive.entries_view(),
                file_index(entries, file_path_of(url.path@), 0) is Some,
            decreases usize::MAX - rounds,
        {
            if rounds == usize::MAX {
                break;
            }
            let n = match vfs::read(fs, &mut keyboard, fd, buffer.as_mut_slice()) {
                Ok(n) => n,
                Err(e) => {
                    let _ = vfs::close(fs, fd);
                    return Err(LoadError::File(e));
                },
            };
            if n == 0 || n > buffer.len() {
                break;
            }
            let mut k: usize = 0;
            while k < n
                invariant
                    k <= n,
                    n <= buffer@.len(),
                decreases n - k,
            {
                data.push(buffer[k]);
                k = k + 1;
            }
            rounds = rounds + 1;
        }
        match vfs::close(fs, fd) {
            Ok(()) => {},
            Err(e) => {
                return Err(LoadError::File(e));
            },
        }
        Ok(Resource::new(url.duplicate(), data))
    }
}

} // verus!
