//! Listing the program's signing sessions: the accounts that hold a session, ordered
//! by session id, accounts with the same id in the order they were read.

use vstd::prelude::*;

use crate::state::{decode_session, SigningSession, SigningSessionView};

verus! {

/// An account's address with the session it holds.
pub type SessionEntryView = (Seq<u8>, SigningSessionView);

/// The accounts, in order, whose data holds a session, each with that session.
pub open spec fn decoded_sessions(accounts: Seq<([u8; 32], Vec<u8>)>) -> Seq<SessionEntryView>
    decreases accounts.len(),
{
    if accounts.len() == 0 {
        Seq::empty()
    } else {
        let init = decoded_sessions(accounts.drop_last());
        let last = accounts.last();
        match decode_session(last.1@) {
            Some(s) => init.push((last.0@, s)),
            None => init,
        }
    }
}

/// The entries whose session has id `id`, in order.
pub open spec fn with_id(s: Seq<SessionEntryView>, id: u16) -> Seq<SessionEntryView>
    decreases s.len(),
{
    if s.len() == 0 {
        Seq::empty()
    } else {
        let init = with_id(s.drop_last(), id);
        if s.last().1.session_id == id {
            init.push(s.last())
        } else {
            init
        }
    }
}

/// The entries are ordered by session id.
pub open spec fn sorted_by_id(s: Seq<SessionEntryView>) -> bool {
    forall|i: int, j: int| 0 <= i <= j < s.len() ==> s[i].1.session_id <= s[j].1.session_id
}

/// The views of listed sessions.
pub open spec fn entries_view(r: Seq<([u8; 32], SigningSession)>) -> Seq<SessionEntryView> {
    r.map_values(|e: ([u8; 32], SigningSession)| (e.0@, e.1@))
}

proof fn lemma_with_id_push(s: Seq<SessionEntryView>, e: SessionEntryView, id: u16)
    ensures
        with_id(s.push(e), id) == if e.1.session_id == id {
            with_id(s, id).push(e)
        } else {
            with_id(s, id)
        },
{
    assert(s.push(e).drop_last() =~= s);
}

proof fn lemma_with_id_add(a: Seq<SessionEntryView>, b: Seq<SessionEntryView>, id: u16)
    ensures
        with_id(a + b, id) == with_id(a, id) + with_id(b, id),
    decreases b.len(),
{
    if b.len() == 0 {
        assert(a + b =~= a);
        assert(with_id(a, id) + with_id(b, id) =~= with_id(a, id));
    } else {
        lemma_with_id_add(a, b.drop_last(), id);
        assert((a + b).drop_last() =~= a + b.drop_last());
        assert((a + b).last() == b.last());
        if b.last().1.session_id == id {
            assert(with_id(a, id) + with_id(b, id) =~= (with_id(a, id) + with_id(
                b.drop_last(),
                id,
            )).push(b.last()));
        }
    }
}

proof fn lemma_with_id_none(s: Seq<SessionEntryView>, id: u16)
    requires
        forall|k: int| 0 <= k < s.len() ==> (#[trigger] s[k]).1.session_id != id,
    ensures
        with_id(s, id) == Seq::<SessionEntryView>::empty(),
    decreases s.len(),
{
    if s.len() > 0 {
        lemma_with_id_none(s.drop_last(), id);
    }
}

/// Inserting `e` after every entry of smaller or equal id and before every entry of
/// larger id keeps the entries ordered and puts `e` last among those of its id.
proof fn lemma_insert_after_equal(old: Seq<SessionEntryView>, p: int, e: SessionEntryView)
    requires
        0 <= p <= old.len(),
        sorted_by_id(old),
        forall|k: int| 0 <= k < p ==> (#[trigger] old[k]).1.session_id <= e.1.session_id,
        forall|k: int| p <= k < old.len() ==> (#[trigger] old[k]).1.session_id > e.1.session_id,
    ensures
        sorted_by_id(old.insert(p, e)),
        forall|id: u16|
            #[trigger] with_id(old.insert(p, e), id) == if e.1.session_id == id {
                with_id(old, id).push(e)
            } else {
                with_id(old, id)
            },
{
    let new = old.insert(p, e);
    let head = old.take(p);
    let tail = old.skip(p);
    assert(new =~= head + (seq![e] + tail));
    assert(old =~= head + tail);
    assert forall|i: int, j: int| 0 <= i <= j < new.len() implies new[i].1.session_id
        <= new[j].1.session_id by {
        if i < p && j > p {
            assert(new[i] == old[i]);
            assert(new[j] == old[j - 1]);
        } else if i > p {
            assert(new[i] == old[i - 1]);
            assert(new[j] == old[j - 1]);
        }
    }
    assert forall|id: u16| #[trigger]
        with_id(old.insert(p, e), id) == if e.1.session_id == id {
            with_id(old, id).push(e)
        } else {
            with_id(old, id)
        } by {
        lemma_with_id_add(head, seq![e] + tail, id);
        lemma_with_id_add(seq![e], tail, id);
        lemma_with_id_add(head, tail, id);
        lemma_with_id_push(Seq::<SessionEntryView>::empty(), e, id);
        assert(seq![e] =~= Seq::<SessionEntryView>::empty().push(e));
        assert(with_id(Seq::<SessionEntryView>::empty(), id) =~= Seq::<SessionEntryView>::empty());
        if e.1.session_id == id {
            assert forall|k: int| 0 <= k < tail.len() implies (#[trigger] tail[k]).1.session_id
                != id by {
                assert(tail[k] == old[p + k]);
            }
            lemma_with_id_none(tail, id);
            assert(with_id(new, id) =~= with_id(head, id).push(e));
            assert(with_id(old, id) =~= with_id(head, id));
        } else {
            assert(with_id(new, id) =~= with_id(head, id) + with_id(tail, id));
        }
    }
}

/// The accounts that hold a session, each with its session, ordered by session id;
/// accounts whose data holds no session are left out, and accounts of equal id keep
/// the order in which they were given.
pub fn collect_sessions(accounts: &Vec<([u8; 32], Vec<u8>)>) -> (r: Vec<([u8; 32], SigningSession)>)
    ensures
        sorted_by_id(entries_view(r@)),
        forall|id: u16|
            #[trigger] with_id(entries_view(r@), id) == with_id(decoded_sessions(accounts@), id),
{
    let mut out: Vec<([u8; 32], SigningSession)> = Vec::new();
    let mut i: usize = 0;
    assert(entries_view(out@) =~= Seq::<SessionEntryView>::empty());
    assert(accounts@.take(0) =~= Seq::<([u8; 32], Vec<u8>)>::empty());
    while i < accounts.len()
        invariant
            i <= accounts@.len(),
            sorted_by_id(entries_view(out@)),
            forall|id: u16|
                #[trigger] with_id(entries_view(out@), id) == with_id(
                    decoded_sessions(accounts@.take(i as int)),
                    id,
                ),
        decreases accounts@.len() - i,
    {
        let ghost before = decoded_sessions(accounts@.take(i as int));
        assert(accounts@.take(i + 1).drop_last() =~= accounts@.take(i as int));
        assert(accounts@.take(i + 1).last() == accounts@[i as int]);
        match SigningSession::try_from_slice(accounts[i].1.as_slice()) {
            None => {
                assert(decoded_sessions(accounts@.take(i + 1)) == before);
            },
            Some(session) => {
                let id = session.session_id;
                let ghost old_view = entries_view(out@);
                let mut p: usize = 0;
                while p < out.len() && out[p].1.session_id <= id
                    invariant
                        p <= out@.len(),
                        old_view == entries_view(out@),
                        forall|k: int| 0 <= k < p ==> (#[trigger] old_view[k]).1.session_id <= id,
                    decreases out@.len() - p,
                {
                    p = p + 1;
                }
                assert forall|k: int| p <= k < old_view.len() implies (
                #[trigger] old_view[k]).1.session_id > id by {
                    assert(old_view[p as int].1.session_id > id);
                    assert(sorted_by_id(old_view));
                }
                let address = accounts[i].0;
                let ghost e: SessionEntryView = (address@, session@);
                out.insert(p, (address, session));
                assert(entries_view(out@) =~= old_view.insert(p as int, e));
                proof {
                    lemma_insert_after_equal(old_view, p as int, e);
                }
                assert(decoded_sessions(accounts@.take(i + 1)) == before.push(e));
                assert forall|x: u16| #[trigger]
                    with_id(entries_view(out@), x) == with_id(
                        decoded_sessions(accounts@.take(i + 1)),
                        x,
                    ) by {
                    lemma_with_id_push(before, e, x);
                }
            },
        }
        i = i + 1;
    }
    assert(accounts@.take(i as int) =~= accounts@);
    out
}

} // verus!
