//! The parts of the download tool's JSON output that hold no number with a
//! fraction, and the few decisions that are taken on that output.

use crate::domain::text::{decimal_text, push_signed_decimal};
use vstd::prelude::*;
use vstd::string::StringExecFns;

verus! {

/// A comment on a video.
#[derive(Clone, Debug, Default, PartialEq, Eq)]
pub struct Comment {
    pub author: Option<String>,
    pub author_id: Option<String>,
    pub html: Option<String>,
    pub id: Option<String>,
    pub parent: Option<String>,
    pub text: Option<String>,
    pub timestamp: Option<i64>,
}

/// A subtitle track.
#[derive(Clone, Debug, Default, PartialEq, Eq)]
pub struct Subtitle {
    pub data: Option<String>,
    pub ext: Option<String>,
    pub url: Option<String>,
}

/// A thumbnail image.
#[derive(Clone, Debug, Default, PartialEq, Eq)]
pub struct Thumbnail {
    pub filesize: Option<i64>,
    pub height: Option<i64>,
    pub id: Option<String>,
    pub preference: Option<i64>,
    pub url: Option<String>,
    pub width: Option<i64>,
}

/// The protocol by which a format is downloaded.
#[derive(Clone, Copy, Debug, PartialEq, Eq, Structural)]
pub enum Protocol {
    Http,
    Https,
    Rtsp,
    Rtmp,
    Rtmpe,
    Mms,
    F4M,
    Ism,
    M3U8,
    M3U8Native,
    HttpDashSegments,
}

impl Protocol {
    /// The name of the protocol in the tool's output.
    pub open spec fn spec_name(self) -> Seq<char> {
        match self {
            Protocol::Http => "http"@,
            Protocol::Https => "https"@,
            Protocol::Rtsp => "rtsp"@,
            Protocol::Rtmp => "rtmp"@,
            Protocol::Rtmpe => "rtmpe"@,
            Protocol::Mms => "mms"@,
            Protocol::F4M => "f4m"@,
            Protocol::Ism => "ism"@,
            Protocol::M3U8 => "m3u8"@,
            Protocol::M3U8Native => "m3u8_native"@,
            Protocol::HttpDashSegments => "http_dash_segments"@,
        }
    }

    /// The name of the protocol in the tool's output.
    pub fn name(self) -> (s: &'static str)
        ensures
            s@ == self.spec_name(),
    {
        match self {
            Protocol::Http => "http",
            Protocol::Https => "https",
            Protocol::Rtsp => "rtsp",
            Protocol::Rtmp => "rtmp",
            Protocol::Rtmpe => "rtmpe",
            Protocol::Mms => "mms",
            Protocol::F4M => "f4m",
            Protocol::Ism => "ism",
            Protocol::M3U8 => "m3u8",
            Protocol::M3U8Native => "m3u8_native",
            Protocol::HttpDashSegments => "http_dash_segments",
        }
    }

    /// The protocol with the given name, if there is one. Names are matched
    /// letter for letter.
    pub fn from_name(name: &str) -> (r: Option<Protocol>)
        ensures
            match r {
                Some(p) => p.spec_name() == name@,
                None => forall|p: Protocol| p.spec_name() != name@,
            },
    {
        if same_text(name, "http") {
            Some(Protocol::Http)
        } else if same_text(name, "https") {
            Some(Protocol::Https)
        } else if same_text(name, "rtsp") {
            Some(Protocol::Rtsp)
        } else if same_text(name, "rtmp") {
            Some(Protocol::Rtmp)
        } else if same_text(name, "rtmpe") {
            Some(Protocol::Rtmpe)
        } else if same_text(name, "mms") {
            Some(Protocol::Mms)
        } else if same_text(name, "f4m") {
            Some(Protocol::F4M)
        } else if same_text(name, "ism") {
            Some(Protocol::Ism)
        } else if same_text(name, "m3u8") {
            Some(Protocol::M3U8)
        } else if same_text(name, "m3u8_native") {
            Some(Protocol::M3U8Native)
        } else if same_text(name, "http_dash_segments") {
            Some(Protocol::HttpDashSegments)
        } else {
            None
        }
    }
}

/// Whether two texts are the same, letter for letter.
fn same_text(a: &str, b: &str) -> (same: bool)
    ensures
        same == (a@ == b@),
{
    String::from_str(a) == String::from_str(b)
}

/// No two protocols share a name, so a protocol is found again by its name.
pub proof fn lemma_protocol_names_differ(p: Protocol, q: Protocol)
    ensures
        p.spec_name() == q.spec_name() <==> p == q,
{
    reveal_strlit("http");
    reveal_strlit("https");
    reveal_strlit("rtsp");
    reveal_strlit("rtmp");
    reveal_strlit("rtmpe");
    reveal_strlit("mms");
    reveal_strlit("f4m");
    reveal_strlit("ism");
    reveal_strlit("m3u8");
    reveal_strlit("m3u8_native");
    reveal_strlit("http_dash_segments");
    if p != q && p.spec_name() == q.spec_name() {
        let a = p.spec_name();
        let b = q.spec_name();
        assert(a.len() == b.len());
        assert(a[0] == b[0]);
        assert(a[1] == b[1]);
        assert(a[2] == b[2]);
    }
}

/// The word that stands for "no codec" in the tool's output.
pub open spec fn no_codec() -> Seq<char> {
    "none"@
}

/// Reads a codec field.
///
/// `raw` is the field as decoded: `None` where it is absent, `Some(None)`
/// where it is null. The tool also writes the word `none` where there is no
/// codec; all three mean the same.
pub fn parse_codec(raw: Option<Option<String>>) -> (codec: Option<String>)
    ensures
        match codec {
            Some(name) => raw == Some(Some(name)) && name@ != no_codec(),
            None => match raw {
                Some(Some(name)) => name@ == no_codec(),
                _ => true,
            },
        },
{
    match raw {
        Some(Some(name)) => {
            if same_text(name.as_str(), "none") {
                None
            } else {
                Some(name)
            }
        },
        _ => None,
    }
}

/// What a run of the tool printed.
#[derive(Clone, Copy, Debug, PartialEq, Eq, Structural)]
pub enum OutputKind {
    Playlist,
    SingleVideo,
}

/// The value of the `_type` field that marks a playlist.
pub open spec fn playlist_type() -> Seq<char> {
    "playlist"@
}

/// Tells a playlist from a single video by the `_type` field of the output:
/// a playlist says `playlist` there; anything else, or no such field, is a
/// single video.
pub fn output_kind(type_field: Option<&str>) -> (kind: OutputKind)
    ensures
        kind == if type_field matches Some(t) && t@ == playlist_type() {
            OutputKind::Playlist
        } else {
            OutputKind::SingleVideo
        },
{
    match type_field {
        Some(t) => {
            if same_text(t, "playlist") {
                OutputKind::Playlist
            } else {
                OutputKind::SingleVideo
            }
        },
        None => OutputKind::SingleVideo,
    }
}

/// The exit code that is reported for a run, 1 where the tool was ended
/// without one.
pub open spec fn reported_code(exit_code: Option<i32>) -> int {
    match exit_code {
        Some(code) => code as int,
        None => 1,
    }
}

/// The message for a failed run: exit code and standard error.
pub open spec fn failure_text(exit_code: Option<i32>, stderr: Seq<char>) -> Seq<char> {
    "error using youtubedl: "@ + decimal_text(reported_code(exit_code)) + " "@ + stderr
}

/// Writes the message for a run of the tool that failed.
pub fn failure_message(exit_code: Option<i32>, stderr: &str) -> (message: String)
    ensures
        message@ == failure_text(exit_code, stderr@),
{
    let code: i32 = match exit_code {
        Some(code) => code,
        None => 1,
    };
    let mut out = String::from_str("error using youtubedl: ");
    push_signed_decimal(&mut out, code as i64);
    out.append(" ");
    out.append(stderr);
    assert(out@ =~= failure_text(exit_code, stderr@));
    out
}

} // verus!
