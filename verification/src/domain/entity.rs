//! The metadata snapshot that is kept in step between the server and its
//! clients.

use vstd::prelude::*;

verus! {

/// A music entry as the synchronisation sees it: the identifier and nothing
/// else. All other columns of a music row are left behind on purpose; clients
/// learn everything about a music from its tags.
#[derive(Clone, Copy, Debug, PartialEq, Eq)]
pub struct MusicRef {
    pub id: i32,
}

/// One tag row: its identifier, the music it belongs to, a key and a value.
#[derive(Clone, Debug, PartialEq, Eq)]
pub struct TagRecord {
    pub id: i32,
    pub music_id: i32,
    pub key: String,
    pub value: String,
}

/// What a [`TagRecord`] holds, as mathematical values.
pub struct TagRecordView {
    pub id: i32,
    pub music_id: i32,
    pub key: Seq<char>,
    pub value: Seq<char>,
}

impl View for TagRecord {
    type V = TagRecordView;

    open spec fn view(&self) -> TagRecordView {
        TagRecordView { id: self.id, music_id: self.music_id, key: self.key@, value: self.value@ }
    }
}

/// A point-in-time view of the library: the musics and the tags, each in the
/// order in which the store returned them. A snapshot is built once and never
/// changed afterwards.
#[derive(Clone, Debug, PartialEq, Eq)]
pub struct Snapshot {
    pub musics: Vec<MusicRef>,
    pub tags: Vec<TagRecord>,
}

/// What a [`Snapshot`] holds, as mathematical values.
pub struct SnapshotView {
    pub musics: Seq<MusicRef>,
    pub tags: Seq<TagRecordView>,
}

impl View for Snapshot {
    type V = SnapshotView;

    open spec fn view(&self) -> SnapshotView {
        SnapshotView { musics: self.musics@, tags: tag_views(self.tags@) }
    }
}

/// The music entries for a list of identifiers, in the same order.
pub open spec fn music_refs(ids: Seq<i32>) -> Seq<MusicRef> {
    ids.map_values(|id: i32| MusicRef { id })
}

/// The views of a list of tag rows, in the same order.
pub open spec fn tag_views(tags: Seq<TagRecord>) -> Seq<TagRecordView> {
    tags.map_values(|t: TagRecord| t@)
}

impl SnapshotView {
    /// The snapshot without any music or tag.
    pub open spec fn empty() -> SnapshotView {
        SnapshotView { musics: Seq::empty(), tags: Seq::empty() }
    }
}

impl Default for Snapshot {
    /// The empty snapshot: what a client sees before the store was read for
    /// the first time.
    fn default() -> (s: Snapshot)
        ensures
            s@ == SnapshotView::empty(),
    {
        let s = Snapshot { musics: Vec::new(), tags: Vec::new() };
        assert(s@.tags =~= Seq::empty());
        s
    }
}

impl Snapshot {
    /// Builds a snapshot from what the store returned: the identifiers of the
    /// music rows and the tag rows, both kept in their order.
    pub fn new(music_ids: &Vec<i32>, tags: Vec<TagRecord>) -> (s: Snapshot)
        ensures
            s@.musics == music_refs(music_ids@),
            s@.tags == tag_views(tags@),
    {
        let mut musics: Vec<MusicRef> = Vec::new();
        let mut i: usize = 0;
        while i < music_ids.len()
            invariant
                i <= music_ids.len(),
                musics@ == music_refs(music_ids@.take(i as int)),
            decreases music_ids.len() - i,
        {
            musics.push(MusicRef { id: music_ids[i] });
            i += 1;
            assert(musics@ =~= music_refs(music_ids@.take(i as int)));
        }
        assert(music_ids@.take(i as int) =~= music_ids@);
        Snapshot { musics, tags }
    }
}

} // verus!
