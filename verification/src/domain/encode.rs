//! The JSON text of a snapshot, as it travels to clients in websocket frames
//! and in the body of the metadata response.
//!
//! A snapshot is one object with two arrays:
//! `{"musics":[{"id":1}],"tags":[{"id":7,"music_id":1,"key":"title","value":"Song"}]}`.
//! No whitespace is written between tokens.

use crate::domain::entity::{MusicRef, Snapshot, SnapshotView, TagRecord, TagRecordView};
use crate::domain::text::{decimal_text, push_signed_decimal};
use vstd::prelude::*;
use vstd::string::StringExecFns;

verus! {

/// The JSON string literal for a text: the text between double quotes, with
/// quotes, backslashes and control characters escaped, as `serde_json` writes
/// it.
pub uninterp spec fn json_string_literal(text: Seq<char>) -> Seq<char>;

#[verifier::external_type_specification]
#[verifier::external_body]
pub struct ExJsonError(serde_json::Error);

/// Calls `serde_json::to_string` on a string slice.
///
/// Trusted: the call succeeds on every string, and its result is the JSON
/// string literal of `text`, a function of the text alone. The serializer
/// writes a string into a buffer in memory and has no way to fail on that
/// path; both causes of failure that its documentation names belong to other
/// types.
#[verifier::external_body]
fn quote(text: &str) -> (r: Result<String, serde_json::Error>)
    ensures
        r is Ok,
        r matches Ok(literal) ==> literal@ == json_string_literal(text@),
{
    serde_json::to_string(text)
}

/// The serializer refused the key or the value of the tag at the given
/// position. It does not do so for any text; the error is there for a session
/// to end on rather than send half a frame, should it ever come.
#[derive(Clone, Copy, Debug, PartialEq, Eq)]
pub enum EncodeError {
    Key { tag: usize },
    Value { tag: usize },
}

/// The JSON object of one music entry.
pub open spec fn music_json(m: MusicRef) -> Seq<char> {
    "{\"id\":"@ + decimal_text(m.id as int) + "}"@
}

/// The JSON object of one tag row, given the string literals of its key and
/// of its value.
pub open spec fn tag_object(
    id: i32,
    music_id: i32,
    key_literal: Seq<char>,
    value_literal: Seq<char>,
) -> Seq<char> {
    "{\"id\":"@ + decimal_text(id as int) + ",\"music_id\":"@ + decimal_text(music_id as int)
        + ",\"key\":"@ + key_literal + ",\"value\":"@ + value_literal + "}"@
}

/// The JSON object of one tag row.
pub open spec fn tag_json(t: TagRecordView) -> Seq<char> {
    tag_object(t.id, t.music_id, json_string_literal(t.key), json_string_literal(t.value))
}

/// The items separated by commas, in order.
pub open spec fn comma_joined(items: Seq<Seq<char>>) -> Seq<char>
    decreases items.len(),
{
    if items.len() == 0 {
        Seq::empty()
    } else if items.len() == 1 {
        items[0]
    } else {
        comma_joined(items.drop_last()) + ","@ + items.last()
    }
}

/// The JSON objects of the music entries, in order.
pub open spec fn music_jsons(musics: Seq<MusicRef>) -> Seq<Seq<char>> {
    musics.map_values(|m: MusicRef| music_json(m))
}

/// The JSON objects of the tag rows, in order.
pub open spec fn tag_jsons(tags: Seq<TagRecordView>) -> Seq<Seq<char>> {
    tags.map_values(|t: TagRecordView| tag_json(t))
}

/// The JSON text of a snapshot.
pub open spec fn snapshot_json(s: SnapshotView) -> Seq<char> {
    "{\"musics\":["@ + comma_joined(music_jsons(s.musics)) + "],\"tags\":["@ + comma_joined(
        tag_jsons(s.tags),
    ) + "]}"@
}

/// Appends the JSON object of a music entry to `out`.
fn push_music(out: &mut String, m: MusicRef)
    ensures
        final(out)@ == old(out)@ + music_json(m),
{
    out.append("{\"id\":");
    push_signed_decimal(out, m.id as i64);
    out.append("}");
    assert(out@ =~= old(out)@ + music_json(m));
}

/// Writes the JSON object of a tag row whose key and value are already
/// written as JSON string literals.
pub fn encode_tag_object(id: i32, music_id: i32, key_literal: &str, value_literal: &str) -> (text:
    String)
    ensures
        text@ == tag_object(id, music_id, key_literal@, value_literal@),
{
    let mut out = String::from_str("{\"id\":");
    push_signed_decimal(&mut out, id as i64);
    out.append(",\"music_id\":");
    push_signed_decimal(&mut out, music_id as i64);
    out.append(",\"key\":");
    out.append(key_literal);
    out.append(",\"value\":");
    out.append(value_literal);
    out.append("}");
    assert(out@ =~= tag_object(id, music_id, key_literal@, value_literal@));
    out
}

/// Writes one tag row as a JSON object.
///
/// `position` is the place of the tag in its snapshot; it is what an error
/// would name.
pub fn encode_tag(tag: &TagRecord, position: usize) -> (r: Result<String, EncodeError>)
    ensures
        r matches Ok(text) && text@ == tag_json(tag@),
{
    let key_literal = match quote(tag.key.as_str()) {
        Ok(literal) => literal,
        Err(_) => {
            return Err(EncodeError::Key { tag: position });
        },
    };
    let value_literal = match quote(tag.value.as_str()) {
        Ok(literal) => literal,
        Err(_) => {
            return Err(EncodeError::Value { tag: position });
        },
    };
    Ok(encode_tag_object(tag.id, tag.music_id, key_literal.as_str(), value_literal.as_str()))
}

/// Writes a snapshot as JSON text.
///
/// Musics and tags appear in the order of the snapshot. Every snapshot is
/// written.
pub fn encode_snapshot(s: &Snapshot) -> (r: Result<String, EncodeError>)
    ensures
        r matches Ok(text) && text@ == snapshot_json(s@),
{
    let mut out = String::from_str("{\"musics\":[");
    let mut i: usize = 0;
    while i < s.musics.len()
        invariant
            i <= s.musics.len(),
            out@ == "{\"musics\":["@ + comma_joined(music_jsons(s.musics@.take(i as int))),
        decreases s.musics.len() - i,
    {
        if i > 0 {
            out.append(",");
        }
        push_music(&mut out, s.musics[i]);
        proof {
            let next = music_jsons(s.musics@.take(i as int + 1));
            assert(next.drop_last() =~= music_jsons(s.musics@.take(i as int)));
            assert(next.last() == music_json(s.musics[i as int]));
            assert(out@ =~= "{\"musics\":["@ + comma_joined(next));
        }
        i += 1;
    }
    assert(s.musics@.take(i as int) =~= s.musics@);
    out.append("],\"tags\":[");
    let ghost head = "{\"musics\":["@ + comma_joined(music_jsons(s@.musics)) + "],\"tags\":["@;
    assert(out@ =~= head + comma_joined(tag_jsons(s@.tags.take(0))));
    let mut j: usize = 0;
    while j < s.tags.len()
        invariant
            j <= s.tags.len(),
            s@.tags.len() == s.tags.len(),
            out@ == head + comma_joined(tag_jsons(s@.tags.take(j as int))),
        decreases s.tags.len() - j,
    {
        let item = match encode_tag(&s.tags[j], j) {
            Ok(item) => item,
            Err(e) => {
                return Err(e);
            },
        };
        if j > 0 {
            out.append(",");
        }
        out.append(item.as_str());
        proof {
            let next = tag_jsons(s@.tags.take(j as int + 1));
            assert(next.drop_last() =~= tag_jsons(s@.tags.take(j as int)));
            assert(s@.tags[j as int] == s.tags[j as int]@);
            assert(next.last() == tag_json(s.tags[j as int]@));
            assert(out@ =~= head + comma_joined(next));
        }
        j += 1;
    }
    assert(s@.tags.take(j as int) =~= s@.tags);
    out.append("]}");
    assert(out@ =~= snapshot_json(s@));
    Ok(out)
}

} // verus!
