//! Change detection: a fingerprint of a snapshot that is cheap to compare.
//!
//! The fingerprint is the standard library's default hash of a byte stream
//! that spells the snapshot out, row by row and in order. Two snapshots with
//! the same rows in another order are spelled differently.

use crate::domain::entity::{MusicRef, Snapshot, SnapshotView, TagRecord, TagRecordView};
use std::collections::hash_map::DefaultHasher;
use std::hash::Hasher;
use vstd::bytes::{lemma_auto_spec_u64_to_from_le_bytes, spec_u64_to_le_bytes, u64_to_le_bytes};
use vstd::prelude::*;
use vstd::std_specs::hash::DefaultHasherAdditionalSpecFns;
use vstd::utf8::{encode_utf8, encode_utf8_decode_utf8};

verus! {

/// An identifier as an unsigned word: shifted so that the smallest identifier
/// becomes zero. Different identifiers give different words.
pub open spec fn id_word(id: i32) -> u64 {
    (id as int + 0x8000_0000) as u64
}

/// What is written for a piece of text: its length in bytes, then its UTF-8
/// bytes.
pub open spec fn text_writes(t: Seq<char>) -> Seq<Seq<u8>> {
    seq![spec_u64_to_le_bytes(encode_utf8(t).len() as u64), encode_utf8(t)]
}

/// What is written for one tag row: both identifiers, then key and value.
pub open spec fn tag_writes(t: TagRecordView) -> Seq<Seq<u8>> {
    seq![spec_u64_to_le_bytes(id_word(t.id)), spec_u64_to_le_bytes(id_word(t.music_id))]
        + text_writes(t.key) + text_writes(t.value)
}

/// What is written for the music entries: one word each, in order.
pub open spec fn musics_writes(musics: Seq<MusicRef>) -> Seq<Seq<u8>> {
    musics.map_values(|m: MusicRef| spec_u64_to_le_bytes(id_word(m.id)))
}

/// What is written for the tag rows: each row's writes, in order.
pub open spec fn tags_writes(tags: Seq<TagRecordView>) -> Seq<Seq<u8>>
    decreases tags.len(),
{
    if tags.len() == 0 {
        Seq::empty()
    } else {
        tags_writes(tags.drop_last()) + tag_writes(tags.last())
    }
}

/// Everything that is fed to the hasher for a snapshot, write by write: the
/// number of musics, the musics, the number of tags, the tags.
pub open spec fn hash_input(s: SnapshotView) -> Seq<Seq<u8>> {
    seq![spec_u64_to_le_bytes(s.musics.len() as u64)] + musics_writes(s.musics)
        + seq![spec_u64_to_le_bytes(s.tags.len() as u64)] + tags_writes(s.tags)
}

/// The fingerprint of a snapshot: the default hasher's digest of
/// [`hash_input`].
pub open spec fn spec_fingerprint(s: SnapshotView) -> u64 {
    DefaultHasher::spec_finish(hash_input(s))
}

fn write_word(hasher: &mut DefaultHasher, word: u64)
    ensures
        final(hasher)@ == old(hasher)@.push(spec_u64_to_le_bytes(word)),
{
    let bytes = u64_to_le_bytes(word);
    hasher.write(bytes.as_slice());
}

fn write_id(hasher: &mut DefaultHasher, id: i32)
    ensures
        final(hasher)@ == old(hasher)@.push(spec_u64_to_le_bytes(id_word(id))),
{
    let word: u64 = (id as i64 + 0x8000_0000) as u64;
    write_word(hasher, word);
}

fn write_text(hasher: &mut DefaultHasher, text: &str)
    ensures
        final(hasher)@ == old(hasher)@ + text_writes(text@),
{
    let bytes = text.as_bytes();
    write_word(hasher, bytes.len() as u64);
    hasher.write(bytes);
    assert(hasher@ =~= old(hasher)@ + text_writes(text@));
}

fn write_tag(hasher: &mut DefaultHasher, tag: &TagRecord)
    ensures
        final(hasher)@ == old(hasher)@ + tag_writes(tag@),
{
    write_id(hasher, tag.id);
    write_id(hasher, tag.music_id);
    write_text(hasher, tag.key.as_str());
    write_text(hasher, tag.value.as_str());
    assert(hasher@ =~= old(hasher)@ + tag_writes(tag@));
}

/// Computes the fingerprint of a snapshot.
///
/// The result depends on the content alone, and on all of it: every
/// identifier, every key and value, and the order of the rows.
pub fn fingerprint(s: &Snapshot) -> (h: u64)
    ensures
        h == spec_fingerprint(s@),
{
    let mut hasher = DefaultHasher::new();
    write_word(&mut hasher, s.musics.len() as u64);
    let mut i: usize = 0;
    while i < s.musics.len()
        invariant
            i <= s.musics.len(),
            hasher@ == seq![spec_u64_to_le_bytes(s.musics.len() as u64)] + musics_writes(
                s.musics@.take(i as int),
            ),
        decreases s.musics.len() - i,
    {
        write_id(&mut hasher, s.musics[i].id);
        i += 1;
        assert(hasher@ =~= seq![spec_u64_to_le_bytes(s.musics.len() as u64)] + musics_writes(
            s.musics@.take(i as int),
        ));
    }
    assert(s.musics@.take(i as int) =~= s.musics@);
    write_word(&mut hasher, s.tags.len() as u64);
    let ghost head = seq![spec_u64_to_le_bytes(s.musics.len() as u64)] + musics_writes(s.musics@)
        + seq![spec_u64_to_le_bytes(s.tags.len() as u64)];
    assert(hasher@ =~= head + tags_writes(s@.tags.take(0)));
    let mut j: usize = 0;
    while j < s.tags.len()
        invariant
            j <= s.tags.len(),
            hasher@ == head + tags_writes(s@.tags.take(j as int)),
        decreases s.tags.len() - j,
    {
        write_tag(&mut hasher, &s.tags[j]);
        proof {
            let next = s@.tags.take(j as int + 1);
            assert(next.drop_last() =~= s@.tags.take(j as int));
            assert(next.last() == s.tags[j as int]@);
            assert(hasher@ =~= head + tags_writes(next));
        }
        j += 1;
    }
    assert(s@.tags.take(j as int) =~= s@.tags);
    hasher.finish()
}

proof fn lemma_id_word_injective(x: i32, y: i32)
    requires
        spec_u64_to_le_bytes(id_word(x)) == spec_u64_to_le_bytes(id_word(y)),
    ensures
        x == y,
{
    lemma_auto_spec_u64_to_from_le_bytes();
}

proof fn lemma_tag_writes_injective(x: TagRecordView, y: TagRecordView)
    requires
        tag_writes(x) == tag_writes(y),
    ensures
        x == y,
{
    let wx = tag_writes(x);
    let wy = tag_writes(y);
    assert(wx.len() == 6);
    assert(wx[0] == spec_u64_to_le_bytes(id_word(x.id)));
    assert(wy[0] == spec_u64_to_le_bytes(id_word(y.id)));
    assert(wx[1] == spec_u64_to_le_bytes(id_word(x.music_id)));
    assert(wy[1] == spec_u64_to_le_bytes(id_word(y.music_id)));
    assert(wx[3] == encode_utf8(x.key));
    assert(wy[3] == encode_utf8(y.key));
    assert(wx[5] == encode_utf8(x.value));
    assert(wy[5] == encode_utf8(y.value));
    lemma_id_word_injective(x.id, y.id);
    lemma_id_word_injective(x.music_id, y.music_id);
    encode_utf8_decode_utf8(x.key);
    encode_utf8_decode_utf8(y.key);
    encode_utf8_decode_utf8(x.value);
    encode_utf8_decode_utf8(y.value);
}

proof fn lemma_tags_writes_len(tags: Seq<TagRecordView>)
    ensures
        tags_writes(tags).len() == 6 * tags.len(),
    decreases tags.len(),
{
    if tags.len() > 0 {
        lemma_tags_writes_len(tags.drop_last());
    }
}

proof fn lemma_tags_writes_injective(x: Seq<TagRecordView>, y: Seq<TagRecordView>)
    requires
        x.len() == y.len(),
        tags_writes(x) == tags_writes(y),
    ensures
        x == y,
    decreases x.len(),
{
    if x.len() == 0 {
        assert(x =~= y);
    } else {
        let head_x = tags_writes(x.drop_last());
        let head_y = tags_writes(y.drop_last());
        let cut = 6 * (x.len() - 1);
        lemma_tags_writes_len(x.drop_last());
        lemma_tags_writes_len(y.drop_last());
        assert(tags_writes(x).subrange(0, cut) =~= head_x);
        assert(tags_writes(y).subrange(0, cut) =~= head_y);
        assert(tags_writes(x).subrange(cut, cut + 6) =~= tag_writes(x.last()));
        assert(tags_writes(y).subrange(cut, cut + 6) =~= tag_writes(y.last()));
        lemma_tags_writes_injective(x.drop_last(), y.drop_last());
        lemma_tag_writes_injective(x.last(), y.last());
        assert(x =~= x.drop_last().push(x.last()));
        assert(y =~= y.drop_last().push(y.last()));
    }
}

/// Whether the hasher fails to tell two snapshots apart: it is fed different
/// input for them and still returns the same digest. A digest of 64 bits
/// cannot rule this out for every pair.
pub open spec fn hasher_collides(a: SnapshotView, b: SnapshotView) -> bool {
    hash_input(a) != hash_input(b) && spec_fingerprint(a) == spec_fingerprint(b)
}

/// Equal fingerprints stand for equal content, and order is content.
///
/// Two snapshots with the same musics and the same tags in the same order
/// have the same fingerprint. Two snapshots that differ anywhere, be it in
/// one identifier, one key, one value or only in the order of their rows,
/// feed the hasher different input. So wherever the hasher does not collide,
/// the fingerprints are equal exactly when the contents are.
pub proof fn lemma_fingerprint_follows_content(a: Snapshot, b: Snapshot)
    ensures
        a@ == b@ ==> spec_fingerprint(a@) == spec_fingerprint(b@),
        hash_input(a@) == hash_input(b@) <==> a@ == b@,
        !hasher_collides(a@, b@) ==> (spec_fingerprint(a@) == spec_fingerprint(b@) <==> a@ == b@),
{
    if hash_input(a@) == hash_input(b@) {
        let ha = hash_input(a@);
        let hb = hash_input(b@);
        let ma: int = a@.musics.len() as int;
        let mb: int = b@.musics.len() as int;
        lemma_auto_spec_u64_to_from_le_bytes();
        vstd::std_specs::vec::axiom_spec_len(&a.musics);
        vstd::std_specs::vec::axiom_spec_len(&b.musics);
        vstd::std_specs::vec::axiom_spec_len(&a.tags);
        vstd::std_specs::vec::axiom_spec_len(&b.tags);
        assert(ha[0] == spec_u64_to_le_bytes(ma as u64));
        assert(hb[0] == spec_u64_to_le_bytes(mb as u64));
        assert(ma == mb);
        assert forall|i: int| 0 <= i < ma implies a@.musics[i] == b@.musics[i] by {
            assert(ha[1 + i] == spec_u64_to_le_bytes(id_word(a@.musics[i].id)));
            assert(hb[1 + i] == spec_u64_to_le_bytes(id_word(b@.musics[i].id)));
            lemma_id_word_injective(a@.musics[i].id, b@.musics[i].id);
        }
        assert(a@.musics =~= b@.musics);
        assert(ha[1 + ma] == spec_u64_to_le_bytes(a@.tags.len() as u64));
        assert(hb[1 + ma] == spec_u64_to_le_bytes(b@.tags.len() as u64));
        assert(a@.tags.len() == b@.tags.len());
        assert(ha.skip(2 + ma) =~= tags_writes(a@.tags));
        assert(hb.skip(2 + ma) =~= tags_writes(b@.tags));
        lemma_tags_writes_injective(a@.tags, b@.tags);
    }
}

} // verus!
