//! The protocol version label that is kept with every connection.

use vstd::prelude::*;
use vstd::string::StringExecFns;
use crate::text::{chars_of, spells};

verus! {

/// The HTTP protocol version a connection was accepted with.
#[derive(Debug, Copy, Clone, PartialEq, Eq, Structural, Hash)]
pub enum HttpVersion {
    Http09,
    Http10,
    Http11,
    Http2,
    Http3,
    Unknown,
}

/// The version that the text `s` names. Each version is known by its full
/// label and by its bare number; the major versions also without `.0`.
/// Any other text names no version.
pub open spec fn version_named(s: Seq<char>) -> HttpVersion {
    if s == "HTTP/0.9"@ || s == "0.9"@ {
        HttpVersion::Http09
    } else if s == "HTTP/1"@ || s == "1"@ || s == "HTTP/1.0"@ || s == "1.0"@ {
        HttpVersion::Http10
    } else if s == "HTTP/1.1"@ || s == "1.1"@ {
        HttpVersion::Http11
    } else if s == "HTTP/2"@ || s == "2"@ || s == "HTTP/2.0"@ || s == "2.0"@ {
        HttpVersion::Http2
    } else if s == "HTTP/3"@ || s == "3"@ || s == "HTTP/3.0"@ || s == "3.0"@ {
        HttpVersion::Http3
    } else {
        HttpVersion::Unknown
    }
}

impl HttpVersion {
    /// The label under which this version is stored.
    pub open spec fn label(self) -> Seq<char> {
        match self {
            HttpVersion::Http09 => "HTTP/0.9"@,
            HttpVersion::Http10 => "HTTP/1.0"@,
            HttpVersion::Http11 => "HTTP/1.1"@,
            HttpVersion::Http2 => "HTTP/2"@,
            HttpVersion::Http3 => "HTTP/3"@,
            HttpVersion::Unknown => "Unknown"@,
        }
    }

    /// The stored label as a static string.
    pub fn as_str(&self) -> (out: &'static str)
        ensures
            out@ == self.label(),
    {
        match self {
            HttpVersion::Http09 => "HTTP/0.9",
            HttpVersion::Http10 => "HTTP/1.0",
            HttpVersion::Http11 => "HTTP/1.1",
            HttpVersion::Http2 => "HTTP/2",
            HttpVersion::Http3 => "HTTP/3",
            HttpVersion::Unknown => "Unknown",
        }
    }

    /// The stored label as an owned string.
    pub fn to_string(&self) -> (out: String)
        ensures
            out@ == self.label(),
    {
        String::from_str(self.as_str())
    }

    /// Reads a version from text. Every text is accepted: one that names no
    /// version gives `Unknown`.
    pub fn from_str(s: &str) -> (out: Result<HttpVersion, ()>)
        ensures
            out == Ok::<HttpVersion, ()>(version_named(s@)),
    {
        let chars = chars_of(s);
        let version = if spells(&chars, "HTTP/0.9") || spells(&chars, "0.9") {
            HttpVersion::Http09
        } else if spells(&chars, "HTTP/1") || spells(&chars, "1") || spells(&chars, "HTTP/1.0")
            || spells(&chars, "1.0") {
            HttpVersion::Http10
        } else if spells(&chars, "HTTP/1.1") || spells(&chars, "1.1") {
            HttpVersion::Http11
        } else if spells(&chars, "HTTP/2") || spells(&chars, "2") || spells(&chars, "HTTP/2.0")
            || spells(&chars, "2.0") {
            HttpVersion::Http2
        } else if spells(&chars, "HTTP/3") || spells(&chars, "3") || spells(&chars, "HTTP/3.0")
            || spells(&chars, "3.0") {
            HttpVersion::Http3
        } else {
            HttpVersion::Unknown
        };
        Ok(version)
    }
}

/// Every version is read back from its own stored label.
pub proof fn lemma_label_names_version(v: HttpVersion)
    ensures
        version_named(v.label()) == v,
{
    reveal_strlit("HTTP/0.9");
    reveal_strlit("0.9");
    reveal_strlit("HTTP/1");
    reveal_strlit("1");
    reveal_strlit("HTTP/1.0");
    reveal_strlit("1.0");
    reveal_strlit("HTTP/1.1");
    reveal_strlit("1.1");
    reveal_strlit("HTTP/2");
    reveal_strlit("2");
    reveal_strlit("HTTP/2.0");
    reveal_strlit("2.0");
    reveal_strlit("HTTP/3");
    reveal_strlit("3");
    reveal_strlit("HTTP/3.0");
    reveal_strlit("3.0");
    assert("HTTP/0.9"@.len() == 8 && "HTTP/1.0"@.len() == 8 && "HTTP/1.1"@.len() == 8);
    assert("HTTP/2.0"@.len() == 8 && "HTTP/3.0"@.len() == 8);
    assert("HTTP/1"@.len() == 6 && "HTTP/2"@.len() == 6 && "HTTP/3"@.len() == 6);
    assert("0.9"@.len() == 3 && "1.0"@.len() == 3 && "1.1"@.len() == 3);
    assert("2.0"@.len() == 3 && "3.0"@.len() == 3);
    assert("1"@.len() == 1 && "2"@.len() == 1 && "3"@.len() == 1);
    reveal_strlit("Unknown");
    assert("Unknown"@.len() == 7);
    assert("HTTP/1.0"@[5] != "HTTP/0.9"@[5]);
    assert("HTTP/1.1"@[5] != "HTTP/0.9"@[5]);
    assert("HTTP/1.1"@[7] != "HTTP/1.0"@[7]);
    assert("HTTP/2"@[5] != "HTTP/1"@[5]);
    assert("HTTP/3"@[5] != "HTTP/1"@[5]);
    assert("HTTP/3"@[5] != "HTTP/2"@[5]);
}

} // verus!
