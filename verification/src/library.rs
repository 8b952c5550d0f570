//! The catalog: the persisted, ordered collection of tracks.

use vstd::prelude::*;
use crate::text::str_le;
use crate::text::str_le_exec;
use crate::text::lemma_str_le_total;
use crate::text::lemma_str_le_trans;

verus! {

/// The mathematical value of a [`Song`]: its three fields as character
/// sequences.
pub ghost struct SongV {
    pub artist: Seq<char>,
    pub name: Seq<char>,
    pub location: Seq<char>,
}

/// One playable audio item: an artist, a display name, and the backing
/// location (a path or a URI). Immutable once loaded; catalog operations
/// identify a song by its `name`.
pub struct Song {
    pub artist: String,
    pub name: String,
    pub location: String,
}

impl Clone for Song {
    fn clone(&self) -> (s: Song)
        ensures
            s == *self,
    {
        Song {
            artist: self.artist.clone(),
            name: self.name.clone(),
            location: self.location.clone(),
        }
    }
}

impl View for Song {
    type V = SongV;

    open spec fn view(&self) -> SongV {
        SongV { artist: self.artist@, name: self.name@, location: self.location@ }
    }
}

/// The catalog: an ordered list of songs, persisted as a whole.
pub struct Library {
    pub songs: Vec<Song>,
}

impl View for Library {
    type V = Seq<SongV>;

    open spec fn view(&self) -> Seq<SongV> {
        song_views(self.songs@)
    }
}

impl Library {
    /// Creates an empty library.
    pub fn new() -> (l: Library)
        ensures
            l@ == Seq::<SongV>::empty(),
    {
        let l = Library { songs: Vec::new() };
        proof {
            assert(l@ =~= Seq::<SongV>::empty());
        }
        l
    }

    /// Appends a song at the end of the catalog.
    pub fn add(&mut self, song: Song)
        ensures
            final(self)@ == old(self)@.push(song@),
    {
        let ghost pre = self@;
        self.songs.push(song);
        proof {
            assert(self@ =~= pre.push(self.songs@.last()@));
        }
    }
}

/// The views of a sequence of songs.
pub open spec fn song_views(s: Seq<Song>) -> Seq<SongV> {
    s.map_values(|x: Song| x@)
}

/// Some song in the catalog bears this name.
pub open spec fn has_song_named(l: Seq<SongV>, name: Seq<char>) -> bool {
    exists|i: int| 0 <= i < l.len() && l[i].name == name
}

/// `i` is the first catalog position whose song bears this name.
pub open spec fn is_first_index_named(l: Seq<SongV>, name: Seq<char>, i: int) -> bool {
    &&& 0 <= i < l.len()
    &&& l[i].name == name
    &&& forall|j: int| 0 <= j < i ==> l[j].name != name
}

/// The catalog is ordered by artist.
pub open spec fn catalog_sorted(l: Seq<SongV>) -> bool {
    forall|i: int, j: int| 0 <= i < j < l.len() ==> str_le(l[i].artist, l[j].artist)
}

impl Library {
    /// Finds the first song with this name, if any is there.
    pub fn find_by_name(&self, name: &String) -> (r: Option<usize>)
        ensures
            match r {
                Some(i) => is_first_index_named(self@, name@, i as int),
                None => !has_song_named(self@, name@),
            },
    {
        let mut i: usize = 0;
        while i < self.songs.len()
            invariant
                i <= self.songs.len(),
                forall|j: int| 0 <= j < i ==> self@[j].name != name@,
            decreases self.songs.len() - i,
        {
            if self.songs[i].name == *name {
                return Some(i);
            }
            i = i + 1;
        }
        None
    }

    /// Deletes the first song with this name. When no song bears it, the
    /// report is `false` and the catalog is exactly what it was.
    pub fn delete_by_name(&mut self, name: &String) -> (found: bool)
        ensures
            found == has_song_named(old(self)@, name@),
            !found ==> final(self)@ == old(self)@,
            found ==> exists|i: int|
                is_first_index_named(old(self)@, name@, i) && final(self)@ == old(self)@.remove(i),
    {
        match self.find_by_name(name) {
            Some(i) => {
                let ghost pre = self@;
                let ghost gi = i as int;
                self.songs.remove(i);
                proof {
                    assert(self@ =~= pre.remove(gi));
                }
                true
            },
            None => false,
        }
    }

    /// Renames the first song with this name: only the display name changes,
    /// the artist and the backing location stay. When no song bears the
    /// name, the report is `false` and the catalog is exactly what it was.
    pub fn rename_by_name(&mut self, name: &String, new_name: &String) -> (found: bool)
        ensures
            found == has_song_named(old(self)@, name@),
            !found ==> final(self)@ == old(self)@,
            found ==> exists|i: int|
                is_first_index_named(old(self)@, name@, i) && final(self)@ == old(self)@.update(
                    i,
                    (SongV { name: new_name@, ..old(self)@[i] }),
                ),
    {
        match self.find_by_name(name) {
            Some(i) => {
                let ghost pre = self@;
                let ghost gi = i as int;
                let old_song = self.songs[i].clone();
                let renamed = Song {
                    artist: old_song.artist,
                    name: new_name.clone(),
                    location: old_song.location,
                };
                self.songs.remove(i);
                self.songs.insert(i, renamed);
                proof {
                    assert(self@ =~= pre.update(gi, (SongV { name: new_name@, ..pre[gi] })));
                }
                true
            },
            None => false,
        }
    }

    /// A copy of the catalog ordered by artist: the same songs, as a
    /// multiset, arranged so that artists come in lexicographic order.
    pub fn sorted_by_artist(&self) -> (r: Vec<Song>)
        ensures
            r@.len() == self@.len(),
            song_views(r@).to_multiset() == self@.to_multiset(),
            catalog_sorted(song_views(r@)),
    {
        let mut r: Vec<Song> = Vec::new();
        let mut i: usize = 0;
        proof {
            assert(song_views(r@) =~= Seq::<SongV>::empty());
            assert(self@.take(0) =~= Seq::<SongV>::empty());
        }
        while i < self.songs.len()
            invariant
                i <= self.songs.len(),
                r@.len() == i,
                song_views(r@).to_multiset() == self@.take(i as int).to_multiset(),
                catalog_sorted(song_views(r@)),
            decreases self.songs.len() - i,
        {
            let song = self.songs[i].clone();
            let ghost pre_r = r@;
            let k = self.insert_position(&r, &song);
            r.insert(k, song);
            proof {
                lemma_insert_keeps_sort(song_views(pre_r), k as int, song@);
                lemma_insert_multiset(pre_r, k as int, song);
                assert(song_views(r@) =~= song_views(pre_r).insert(k as int, song@));
                assert(self@.take(i + 1) =~= self@.take(i as int).push(self@[i as int]));
                vstd::seq_lib::to_multiset_build(self@.take(i as int), self@[i as int]);
                assert(song_views(r@).to_multiset() =~= self@.take(i + 1).to_multiset());
            }
            i = i + 1;
        }
        proof {
            assert(self@.take(self.songs.len() as int) =~= self@);
        }
        r
    }

    /// The position a song takes in an artist-ordered catalog: after every
    /// song whose artist does not come later.
    fn insert_position(&self, r: &Vec<Song>, song: &Song) -> (k: usize)
        requires
            catalog_sorted(song_views(r@)),
        ensures
            k <= r@.len(),
            forall|j: int| 0 <= j < k ==> str_le(song_views(r@)[j].artist, song@.artist),
            forall|j: int| k <= j < r@.len() ==> str_le(song@.artist, song_views(r@)[j].artist),
    {
        let mut k: usize = 0;
        while k < r.len()
            invariant
                k <= r@.len(),
                catalog_sorted(song_views(r@)),
                forall|j: int| 0 <= j < k ==> str_le(song_views(r@)[j].artist, song@.artist),
            decreases r@.len() - k,
        {
            if !str_le_exec(r[k].artist.as_str(), song.artist.as_str()) {
                proof {
                    lemma_str_le_total(song_views(r@)[k as int].artist, song@.artist);
                    assert forall|j: int| k <= j < r@.len() implies str_le(
                        song@.artist,
                        song_views(r@)[j].artist,
                    ) by {
                        if j > k {
                            lemma_str_le_trans(
                                song@.artist,
                                song_views(r@)[k as int].artist,
                                song_views(r@)[j].artist,
                            );
                        }
                    }
                }
                return k;
            }
            k = k + 1;
        }
        k
    }
}

/// Inserting a song whose artist fits between its neighbours keeps the
/// catalog ordered.
proof fn lemma_insert_keeps_sort(l: Seq<SongV>, k: int, v: SongV)
    requires
        catalog_sorted(l),
        0 <= k <= l.len(),
        forall|j: int| 0 <= j < k ==> str_le(l[j].artist, v.artist),
        forall|j: int| k <= j < l.len() ==> str_le(v.artist, l[j].artist),
    ensures
        catalog_sorted(l.insert(k, v)),
{
    let li = l.insert(k, v);
    assert forall|i: int, j: int| 0 <= i < j < li.len() implies str_le(
        li[i].artist,
        li[j].artist,
    ) by {
        assert(li[k] == v);
        assert(forall|m: int| 0 <= m < k ==> li[m] == l[m]);
        assert(forall|m: int| k < m < li.len() ==> li[m] == l[m - 1]);
    }
}

/// Inserting one song adds exactly its view to the catalog's multiset.
proof fn lemma_insert_multiset(s: Seq<Song>, k: int, v: Song)
    requires
        0 <= k <= s.len(),
    ensures
        song_views(s.insert(k, v)).to_multiset() == song_views(s).to_multiset().insert(v@),
{
    let a = song_views(s).take(k);
    let b = song_views(s).skip(k);
    assert(song_views(s.insert(k, v)) =~= a.push(v@) + b);
    assert(song_views(s) =~= a + b);
    vstd::seq_lib::lemma_multiset_commutative(a.push(v@), b);
    vstd::seq_lib::lemma_multiset_commutative(a, b);
    vstd::seq_lib::to_multiset_build(a, v@);
    assert(song_views(s.insert(k, v)).to_multiset() =~= song_views(s).to_multiset().insert(v@));
}

} // verus!
