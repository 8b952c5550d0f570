//! The play queue: one session's randomly ordered copy of the catalog.
//!
//! The queue is drawn once at session start and never reshuffled: the songs
//! are taken out of a working copy of the catalog one by one, each position
//! drawn fresh, so the result is a permutation of the catalog whatever the
//! draws were.

use vstd::prelude::*;
use vstd::multiset::Multiset;
use crate::library::Library;
use crate::library::Song;
use crate::library::SongV;
use crate::library::song_views;

verus! {

/// Relies on `rand::thread_rng` and `rand::Rng::gen_range`: a random index
/// drawn below `n`. `gen_range` panics on an empty range, which `n > 0`
/// rules out; nothing more is promised of which index comes back.
#[verifier::external_body]
fn rand_below(n: usize) -> (r: usize)
    requires
        n > 0,
    ensures
        r < n,
{
    rand::Rng::gen_range(&mut rand::thread_rng(), 0..n)
}

/// Builds the session's play queue: the catalog's songs in a freshly drawn
/// order — the same multiset of songs, the same length, whatever the draws.
pub fn shuffled_queue(catalog: &Library) -> (q: Vec<Song>)
    ensures
        q@.len() == catalog@.len(),
        song_views(q@).to_multiset() == catalog@.to_multiset(),
{
    broadcast use vstd::seq_lib::group_to_multiset_ensures;
    broadcast use vstd::multiset::group_multiset_axioms;

    let mut rest: Vec<Song> = Vec::new();
    let mut i: usize = 0;
    while i < catalog.songs.len()
        invariant
            i <= catalog.songs.len(),
            rest@ == catalog.songs@.take(i as int),
        decreases catalog.songs.len() - i,
    {
        rest.push(catalog.songs[i].clone());
        proof {
            assert(rest@ =~= catalog.songs@.take(i + 1));
        }
        i = i + 1;
    }
    proof {
        assert(catalog.songs@.take(catalog.songs@.len() as int) =~= catalog.songs@);
        assert(song_views(Seq::<Song>::empty()).to_multiset().add(
            song_views(rest@).to_multiset(),
        ) =~= catalog@.to_multiset());
    }
    let mut q: Vec<Song> = Vec::new();
    proof {
        assert(q@ =~= Seq::<Song>::empty());
    }
    while rest.len() > 0
        invariant
            q@.len() + rest@.len() == catalog@.len(),
            song_views(q@).to_multiset().add(song_views(rest@).to_multiset())
                == catalog@.to_multiset(),
        decreases rest@.len(),
    {
        let ghost pre_q = q@;
        let ghost pre_rest = rest@;
        let j = rand_below(rest.len());
        let song = rest.remove(j);
        q.push(song);
        proof {
            let v = song_views(pre_rest)[j as int];
            song_views(pre_rest).to_multiset_ensures();
            song_views(pre_q).to_multiset_ensures();
            assert(song_views(rest@) =~= song_views(pre_rest).remove(j as int));
            assert(song_views(q@) =~= song_views(pre_q).push(v));
            assert(song_views(pre_rest).contains(v));
            assert(song_views(pre_rest).to_multiset().count(v) > 0);
            assert(song_views(q@).to_multiset().add(song_views(rest@).to_multiset())
                =~= song_views(pre_q).to_multiset().add(song_views(pre_rest).to_multiset()));
        }
    }
    proof {
        assert(song_views(rest@) =~= Seq::<SongV>::empty());
        assert(song_views(q@).to_multiset().add(Multiset::<SongV>::empty()) =~= song_views(
            q@,
        ).to_multiset());
    }
    q
}

} // verus!
