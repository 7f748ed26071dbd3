//! What the connections of a story are, said without loops: one for every
//! pair of a note on the body and a note on a clue that share a tag, in the
//! order of the pairs. The laws of the connections follow from that.

use crate::connection::{
    all_links, link, linkable, links_in_clue, links_in_clues, ConnectionView,
};
use crate::note::{ConnectionType, NoteView};
use vstd::prelude::*;

verus! {

/// The places of the notes of a clue that a note from the body can be linked
/// with, in their order.
pub open spec fn sources_in_clue(from: NoteView, notes: Seq<NoteView>) -> Seq<int>
    decreases notes.len(),
{
    if notes.len() == 0 {
        Seq::empty()
    } else {
        let before = sources_in_clue(from, notes.drop_last());
        if linkable(from, notes.last()) {
            before.push(notes.len() - 1)
        } else {
            before
        }
    }
}

/// The clue notes that a note from the body can be linked with, each as the
/// place of its clue and its place among that clue's notes, in their order.
pub open spec fn sources_in_clues(from: NoteView, clues: Seq<(Seq<char>, Seq<NoteView>)>) -> Seq<
    (int, int),
>
    decreases clues.len(),
{
    if clues.len() == 0 {
        Seq::empty()
    } else {
        let before = sources_in_clues(from, clues.drop_last());
        let last = sources_in_clue(from, clues.last().1);
        before + Seq::new(last.len(), |p: int| (clues.len() - 1, last[p]))
    }
}

/// The pairs that can be linked, each as the place of the body's note, the
/// place of the clue, and the place of the note among that clue's notes, in
/// their order.
pub open spec fn sources(body: Seq<NoteView>, clues: Seq<(Seq<char>, Seq<NoteView>)>) -> Seq<
    (int, int, int),
>
    decreases body.len(),
{
    if body.len() == 0 {
        Seq::empty()
    } else {
        let before = sources(body.drop_last(), clues);
        let last = sources_in_clues(body.last(), clues);
        before + Seq::new(last.len(), |p: int| (body.len() - 1, last[p].0, last[p].1))
    }
}

/// Whether the three places name a note on the body and a note on a clue
/// that share a tag.
pub open spec fn is_pair(
    body: Seq<NoteView>,
    clues: Seq<(Seq<char>, Seq<NoteView>)>,
    s: (int, int, int),
) -> bool {
    &&& 0 <= s.0 < body.len()
    &&& 0 <= s.1 < clues.len()
    &&& 0 <= s.2 < clues[s.1].1.len()
    &&& linkable(body[s.0], clues[s.1].1[s.2])
}

/// The connection of the pair that the three places name.
pub open spec fn link_of(
    body: Seq<NoteView>,
    clues: Seq<(Seq<char>, Seq<NoteView>)>,
    s: (int, int, int),
    id: u32,
) -> ConnectionView {
    link(body[s.0], clues[s.1].1[s.2], clues[s.1].0, id)
}

/// Whether one pair comes before another: by the body's note first, then by
/// the clue, then by the clue's note.
pub open spec fn earlier(a: (int, int, int), b: (int, int, int)) -> bool {
    a.0 < b.0 || (a.0 == b.0 && (a.1 < b.1 || (a.1 == b.1 && a.2 < b.2)))
}

/// How many connections a story has.
pub open spec fn link_count(body: Seq<NoteView>, clues: Seq<(Seq<char>, Seq<NoteView>)>) -> nat {
    sources(body, clues).len()
}

/// Whether the connections are those of the places, one for one.
pub open spec fn in_clue_described(
    links: Seq<ConnectionView>,
    src: Seq<int>,
    from: NoteView,
    name: Seq<char>,
    notes: Seq<NoteView>,
    first: int,
) -> bool {
    &&& links.len() == src.len()
    &&& forall|p: int|
        0 <= p < src.len() ==> {
            &&& 0 <= #[trigger] src[p] < notes.len()
            &&& linkable(from, notes[src[p]])
            &&& links[p] == link(from, notes[src[p]], name, (first + p) as u32)
        }
    &&& forall|p: int, q: int| 0 <= p < q < src.len() ==> #[trigger] src[p] < #[trigger] src[q]
    &&& forall|k: int|
        0 <= k < notes.len() && linkable(from, #[trigger] notes[k]) ==> src.contains(k)
}

/// Whether the connections are those of the places, one for one.
pub open spec fn in_clues_described(
    links: Seq<ConnectionView>,
    src: Seq<(int, int)>,
    from: NoteView,
    clues: Seq<(Seq<char>, Seq<NoteView>)>,
    first: int,
) -> bool {
    &&& links.len() == src.len()
    &&& forall|p: int|
        0 <= p < src.len() ==> {
            &&& 0 <= (#[trigger] src[p]).0 < clues.len()
            &&& 0 <= src[p].1 < clues[src[p].0].1.len()
            &&& linkable(from, clues[src[p].0].1[src[p].1])
            &&& links[p] == link(
                from,
                clues[src[p].0].1[src[p].1],
                clues[src[p].0].0,
                (first + p) as u32,
            )
        }
    &&& forall|p: int, q: int|
        0 <= p < q < src.len() ==> {
            ||| (#[trigger] src[p]).0 < (#[trigger] src[q]).0
            ||| (src[p].0 == src[q].0 && src[p].1 < src[q].1)
        }
    &&& forall|j: int, k: int|
        0 <= j < clues.len() && 0 <= k < clues[j].1.len() && linkable(
            from,
            #[trigger] clues[j].1[k],
        ) ==> src.contains((j, k))
}

/// Whether the connections are those of the pairs, one for one: as many, the
/// connection at each place that of the pair at that place with the id of
/// that place, the pairs in their order, and no pair left out.
pub open spec fn described(
    links: Seq<ConnectionView>,
    src: Seq<(int, int, int)>,
    body: Seq<NoteView>,
    clues: Seq<(Seq<char>, Seq<NoteView>)>,
    first: int,
) -> bool {
    &&& links.len() == src.len()
    &&& forall|p: int|
        0 <= p < src.len() ==> {
            &&& is_pair(body, clues, #[trigger] src[p])
            &&& links[p] == link_of(body, clues, src[p], (first + p) as u32)
        }
    &&& forall|p: int, q: int|
        0 <= p < q < src.len() ==> earlier(#[trigger] src[p], #[trigger] src[q])
    &&& forall|s: (int, int, int)| #[trigger] is_pair(body, clues, s) ==> src.contains(s)
}

/// The connections from one note of the body to the notes of one clue are
/// those of the clue's notes with the same tag, one for one.
pub proof fn lemma_links_in_clue_described(
    from: NoteView,
    name: Seq<char>,
    notes: Seq<NoteView>,
    first: int,
)
    ensures
        in_clue_described(
            links_in_clue(from, name, notes, first),
            sources_in_clue(from, notes),
            from,
            name,
            notes,
            first,
        ),
    decreases notes.len(),
{
    let src = sources_in_clue(from, notes);
    let links = links_in_clue(from, name, notes, first);
    if notes.len() > 0 {
        let rest = notes.drop_last();
        lemma_links_in_clue_described(from, name, rest, first);
        let bsrc = sources_in_clue(from, rest);
        let blinks = links_in_clue(from, name, rest, first);
        assert forall|p: int| 0 <= p < src.len() implies {
            &&& 0 <= #[trigger] src[p] < notes.len()
            &&& linkable(from, notes[src[p]])
            &&& links[p] == link(from, notes[src[p]], name, (first + p) as u32)
        } by {
            if p < bsrc.len() {
                assert(src[p] == bsrc[p]);
                assert(rest[bsrc[p]] == notes[bsrc[p]]);
                assert(links[p] == blinks[p]);
            }
        }
        assert forall|p: int, q: int| 0 <= p < q < src.len() implies #[trigger] src[p]
            < #[trigger] src[q] by {
            assert(src[p] == bsrc[p]);
            if q < bsrc.len() {
                assert(src[q] == bsrc[q]);
            }
        }
        assert forall|k: int|
            0 <= k < notes.len() && linkable(from, #[trigger] notes[k]) implies src.contains(
            k,
        ) by {
            if k < rest.len() {
                assert(rest[k] == notes[k]);
                assert(bsrc.contains(k));
                let p = choose|p: int| 0 <= p < bsrc.len() && bsrc[p] == k;
                assert(src[p] == k);
            } else {
                assert(src[src.len() - 1] == k);
            }
        }
    }
}

/// The connections from one note of the body to the notes of every clue are
/// those of the clue notes with the same tag, one for one.
pub proof fn lemma_links_in_clues_described(
    from: NoteView,
    clues: Seq<(Seq<char>, Seq<NoteView>)>,
    first: int,
)
    ensures
        in_clues_described(
            links_in_clues(from, clues, first),
            sources_in_clues(from, clues),
            from,
            clues,
            first,
        ),
    decreases clues.len(),
{
    let src = sources_in_clues(from, clues);
    let links = links_in_clues(from, clues, first);
    if clues.len() > 0 {
        let rest = clues.drop_last();
        let n = clues.len() - 1;
        lemma_links_in_clues_described(from, rest, first);
        let bsrc = sources_in_clues(from, rest);
        let blinks = links_in_clues(from, rest, first);
        let lsrc = sources_in_clue(from, clues.last().1);
        let llinks = links_in_clue(from, clues.last().0, clues.last().1, first + blinks.len());
        lemma_links_in_clue_described(
            from,
            clues.last().0,
            clues.last().1,
            first + blinks.len(),
        );
        assert(links == blinks + llinks);
        assert forall|p: int| 0 <= p < src.len() implies {
            &&& 0 <= (#[trigger] src[p]).0 < clues.len()
            &&& 0 <= src[p].1 < clues[src[p].0].1.len()
            &&& linkable(from, clues[src[p].0].1[src[p].1])
            &&& links[p] == link(
                from,
                clues[src[p].0].1[src[p].1],
                clues[src[p].0].0,
                (first + p) as u32,
            )
        } by {
            if p < bsrc.len() {
                assert(src[p] == bsrc[p]);
                assert(rest[bsrc[p].0] == clues[bsrc[p].0]);
                assert(links[p] == blinks[p]);
            } else {
                let at = p - bsrc.len();
                assert(src[p] == (n, lsrc[at]));
                assert(links[p] == llinks[at]);
            }
        }
        assert forall|p: int, q: int| 0 <= p < q < src.len() implies {
            ||| (#[trigger] src[p]).0 < (#[trigger] src[q]).0
            ||| (src[p].0 == src[q].0 && src[p].1 < src[q].1)
        } by {
            if q < bsrc.len() {
                assert(src[p] == bsrc[p]);
                assert(src[q] == bsrc[q]);
            } else if p < bsrc.len() {
                assert(src[p] == bsrc[p]);
                assert(src[q] == (n, lsrc[q - bsrc.len()]));
            } else {
                assert(src[p] == (n, lsrc[p - bsrc.len()]));
                assert(src[q] == (n, lsrc[q - bsrc.len()]));
            }
        }
        assert forall|j: int, k: int|
            0 <= j < clues.len() && 0 <= k < clues[j].1.len() && linkable(
                from,
                #[trigger] clues[j].1[k],
            ) implies src.contains((j, k)) by {
            if j < n {
                assert(rest[j] == clues[j]);
                assert(linkable(from, rest[j].1[k]));
                assert(bsrc.contains((j, k)));
                let p = choose|p: int| 0 <= p < bsrc.len() && bsrc[p] == (j, k);
                assert(src[p] == (j, k));
            } else {
                assert(linkable(from, clues.last().1[k]));
                assert(lsrc.contains(k));
                let at = choose|at: int| 0 <= at < lsrc.len() && lsrc[at] == k;
                assert(src[bsrc.len() + at] == (j, k));
            }
        }
    }
}

/// The connections of a story are those of its pairs, one for one.
pub proof fn lemma_links_described(
    body: Seq<NoteView>,
    clues: Seq<(Seq<char>, Seq<NoteView>)>,
    first: int,
)
    ensures
        described(all_links(body, clues, first), sources(body, clues), body, clues, first),
    decreases body.len(),
{
    let src = sources(body, clues);
    let links = all_links(body, clues, first);
    if body.len() > 0 {
        let rest = body.drop_last();
        let n = body.len() - 1;
        lemma_links_described(rest, clues, first);
        let bsrc = sources(rest, clues);
        let blinks = all_links(rest, clues, first);
        let lsrc = sources_in_clues(body.last(), clues);
        let llinks = links_in_clues(body.last(), clues, first + blinks.len());
        lemma_links_in_clues_described(body.last(), clues, first + blinks.len());
        assert(links == blinks + llinks);
        assert forall|p: int| 0 <= p < src.len() implies {
            &&& is_pair(body, clues, #[trigger] src[p])
            &&& links[p] == link_of(body, clues, src[p], (first + p) as u32)
        } by {
            if p < bsrc.len() {
                assert(src[p] == bsrc[p]);
                assert(is_pair(rest, clues, bsrc[p]));
                assert(rest[bsrc[p].0] == body[bsrc[p].0]);
                assert(links[p] == blinks[p]);
            } else {
                let at = p - bsrc.len();
                assert(src[p] == (n, lsrc[at].0, lsrc[at].1));
                assert(links[p] == llinks[at]);
            }
        }
        assert forall|p: int, q: int| 0 <= p < q < src.len() implies earlier(
            #[trigger] src[p],
            #[trigger] src[q],
        ) by {
            if q < bsrc.len() {
                assert(src[p] == bsrc[p]);
                assert(src[q] == bsrc[q]);
            } else if p < bsrc.len() {
                assert(src[p] == bsrc[p]);
                assert(is_pair(rest, clues, bsrc[p]));
                assert(src[q] == (n, lsrc[q - bsrc.len()].0, lsrc[q - bsrc.len()].1));
            } else {
                assert(src[p] == (n, lsrc[p - bsrc.len()].0, lsrc[p - bsrc.len()].1));
                assert(src[q] == (n, lsrc[q - bsrc.len()].0, lsrc[q - bsrc.len()].1));
            }
        }
        assert forall|s: (int, int, int)| #[trigger] is_pair(body, clues, s) implies src.contains(
            s,
        ) by {
            if s.0 < n {
                assert(rest[s.0] == body[s.0]);
                assert(is_pair(rest, clues, s));
                assert(bsrc.contains(s));
                let p = choose|p: int| 0 <= p < bsrc.len() && bsrc[p] == s;
                assert(src[p] == s);
            } else {
                assert(linkable(body.last(), clues[s.1].1[s.2]));
                assert(lsrc.contains((s.1, s.2)));
                let at = choose|at: int| 0 <= at < lsrc.len() && lsrc[at] == (s.1, s.2);
                assert(src[bsrc.len() + at] == s);
            }
        }
    }
}

/// How many connections a story has does not depend on the ids that their
/// notes get.
pub proof fn lemma_links_counted(
    body: Seq<NoteView>,
    clues: Seq<(Seq<char>, Seq<NoteView>)>,
    first: int,
)
    ensures
        all_links(body, clues, first).len() == link_count(body, clues),
{
    lemma_links_described(body, clues, first);
}

/// The first notes of a clue offer no more places than all of them.
pub proof fn lemma_sources_in_clue_grow(from: NoteView, notes: Seq<NoteView>, k: int)
    requires
        0 <= k <= notes.len(),
    ensures
        sources_in_clue(from, notes.take(k)).len() <= sources_in_clue(from, notes).len(),
    decreases notes.len(),
{
    if k == notes.len() {
        assert(notes.take(k) == notes);
    } else {
        assert(notes.drop_last().take(k) == notes.take(k));
        lemma_sources_in_clue_grow(from, notes.drop_last(), k);
    }
}

/// The first clues offer no more places than all of them.
pub proof fn lemma_sources_in_clues_grow(
    from: NoteView,
    clues: Seq<(Seq<char>, Seq<NoteView>)>,
    k: int,
)
    requires
        0 <= k <= clues.len(),
    ensures
        sources_in_clues(from, clues.take(k)).len() <= sources_in_clues(from, clues).len(),
    decreases clues.len(),
{
    if k == clues.len() {
        assert(clues.take(k) == clues);
    } else {
        assert(clues.drop_last().take(k) == clues.take(k));
        lemma_sources_in_clues_grow(from, clues.drop_last(), k);
    }
}

/// The first notes of the body have no more pairs than all of them.
pub proof fn lemma_sources_grow(
    body: Seq<NoteView>,
    clues: Seq<(Seq<char>, Seq<NoteView>)>,
    k: int,
)
    requires
        0 <= k <= body.len(),
    ensures
        sources(body.take(k), clues).len() <= sources(body, clues).len(),
    decreases body.len(),
{
    if k == body.len() {
        assert(body.take(k) == body);
    } else {
        assert(body.drop_last().take(k) == body.take(k));
        lemma_sources_grow(body.drop_last(), clues, k);
    }
}

/// No note of the body or of a clue shares its id with another of them.
pub open spec fn ids_apart(body: Seq<NoteView>, clues: Seq<(Seq<char>, Seq<NoteView>)>) -> bool {
    &&& forall|i: int, j: int|
        0 <= i < j < body.len() ==> (#[trigger] body[i]).id != (#[trigger] body[j]).id
    &&& forall|j: int, k: int, m: int, n: int|
        0 <= j < clues.len() && 0 <= k < clues[j].1.len() && 0 <= m < clues.len() && 0 <= n
            < clues[m].1.len() && (j != m || k != n) ==> (#[trigger] clues[j].1[k]).id
            != (#[trigger] clues[m].1[n]).id
    &&& forall|i: int, j: int, k: int|
        0 <= i < body.len() && 0 <= j < clues.len() && 0 <= k < clues[j].1.len() ==> (
        #[trigger] body[i]).id != (#[trigger] clues[j].1[k]).id
}

/// Where every note has its own id, every connection has its own pair of
/// ids: no two connections join the same two notes, and no note stands on
/// both sides, of one connection or of two.
pub proof fn lemma_links_have_their_own_ids(
    body: Seq<NoteView>,
    clues: Seq<(Seq<char>, Seq<NoteView>)>,
    first: int,
)
    requires
        ids_apart(body, clues),
    ensures
        forall|p: int, q: int|
            0 <= p < q < all_links(body, clues, first).len() ==> (#[trigger] all_links(
                body,
                clues,
                first,
            )[p]).ids != (#[trigger] all_links(body, clues, first)[q]).ids,
        forall|p: int, q: int|
            0 <= p < all_links(body, clues, first).len() && 0 <= q < all_links(
                body,
                clues,
                first,
            ).len() ==> (#[trigger] all_links(body, clues, first)[p]).ids.0 != (#[trigger] all_links(
                body,
                clues,
                first,
            )[q]).ids.1,
{
    let links = all_links(body, clues, first);
    let src = sources(body, clues);
    lemma_links_described(body, clues, first);
    assert forall|p: int, q: int| 0 <= p < q < links.len() implies (#[trigger] links[p]).ids != (
    #[trigger] links[q]).ids by {
        let a = src[p];
        let b = src[q];
        assert(is_pair(body, clues, a) && is_pair(body, clues, b));
        assert(earlier(a, b));
        assert(links[p].ids == (body[a.0].id, clues[a.1].1[a.2].id));
        assert(links[q].ids == (body[b.0].id, clues[b.1].1[b.2].id));
        if a.0 < b.0 {
            assert(body[a.0].id != body[b.0].id);
        } else {
            assert(clues[a.1].1[a.2].id != clues[b.1].1[b.2].id);
        }
    }
    assert forall|p: int, q: int| 0 <= p < links.len() && 0 <= q < links.len() implies (
    #[trigger] links[p]).ids.0 != (#[trigger] links[q]).ids.1 by {
        let a = src[p];
        let b = src[q];
        assert(is_pair(body, clues, a) && is_pair(body, clues, b));
        assert(links[p].ids == (body[a.0].id, clues[a.1].1[a.2].id));
        assert(links[q].ids == (body[b.0].id, clues[b.1].1[b.2].id));
        assert(body[a.0].id != clues[b.1].1[b.2].id);
    }
}

/// Where one note on the body and one note on the clues carry a tag, and no
/// other note does, the story has exactly one connection of that kind: the
/// one between those two notes, whose note names the clue.
pub proof fn lemma_one_link_of_a_kind(
    body: Seq<NoteView>,
    clues: Seq<(Seq<char>, Seq<NoteView>)>,
    first: int,
    kind: ConnectionType,
    s: (int, int, int),
) -> (p: int)
    requires
        0 <= s.0 < body.len(),
        0 <= s.1 < clues.len(),
        0 <= s.2 < clues[s.1].1.len(),
        forall|i: int|
            0 <= i < body.len() ==> ((#[trigger] body[i]).cxn_type == Some(kind) <==> i == s.0),
        forall|j: int, k: int|
            0 <= j < clues.len() && 0 <= k < clues[j].1.len() ==> ((#[trigger] clues[j].1[k]).cxn_type
                == Some(kind) <==> (j == s.1 && k == s.2)),
    ensures
        0 <= p < all_links(body, clues, first).len(),
        all_links(body, clues, first)[p] == link_of(body, clues, s, (first + p) as u32),
        all_links(body, clues, first)[p].ids == (body[s.0].id, clues[s.1].1[s.2].id),
        all_links(body, clues, first)[p].cxn_type == kind,
        all_links(body, clues, first)[p].note.note[3].0 == clues[s.1].0,
        forall|q: int|
            0 <= q < all_links(body, clues, first).len() && (#[trigger] all_links(
                body,
                clues,
                first,
            )[q]).cxn_type == kind ==> q == p,
{
    let links = all_links(body, clues, first);
    let src = sources(body, clues);
    lemma_links_described(body, clues, first);
    assert(body[s.0].cxn_type == Some(kind));
    assert(clues[s.1].1[s.2].cxn_type == Some(kind));
    assert(is_pair(body, clues, s));
    assert(src.contains(s));
    let p = choose|p: int| 0 <= p < src.len() && src[p] == s;
    assert forall|q: int| 0 <= q < links.len() && (#[trigger] links[q]).cxn_type == kind implies q
        == p by {
        let b = src[q];
        assert(is_pair(body, clues, b));
        assert(links[q] == link_of(body, clues, b, (first + q) as u32));
        assert(body[b.0].cxn_type == Some(kind));
        assert(clues[b.1].1[b.2].cxn_type == Some(kind));
        assert(b == s);
        if q < p {
            assert(earlier(src[q], src[p]));
        } else if p < q {
            assert(earlier(src[p], src[q]));
        }
    }
    p
}

} // verus!
