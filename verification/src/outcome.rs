//! What follows once a request has been answered: a session that was changed is
//! stored, and shown to those who watch it.

use crate::model::SessionState;
#[allow(unused_imports)]
use crate::model::{SessionView, UpdateRequest};
use crate::registry::{publish, PublicSession};
#[allow(unused_imports)]
use crate::registry::published;
use crate::reply::Reply;
#[allow(unused_imports)]
use crate::reply::{done, ReplyView};
#[allow(unused_imports)]
use crate::session::driver_refusal;
use crate::store::{save_session, SessionRow, WrittenDocs};
#[allow(unused_imports)]
use crate::store::stored_as;
use crate::table::Table;
#[allow(unused_imports)]
use crate::technician::{after_update, update_refusal};
use vstd::prelude::*;

verus! {

/// What is to be done once a session was changed.
#[derive(Debug)]
pub struct Outcome {
    /// The row to store, once.
    pub row: SessionRow,
    /// The room to send to, once.
    pub room: String,
    /// What to send there.
    pub state: PublicSession,
}

/// What follows from an answer to a request about the session `id`: where the
/// request was carried out, the session as it now stands is stored and shown in
/// its room; otherwise nothing is.
pub open spec fn follows(
    o: Option<Outcome>,
    reply: ReplyView,
    sessions: Map<Seq<char>, SessionView>,
    id: Seq<char>,
    docs: WrittenDocs,
    now: u64,
) -> bool {
    match o {
        Some(o) => {
            &&& reply.ok && sessions.contains_key(id)
            &&& stored_as(o.row, sessions[id], docs, now)
            &&& o.room@ == id
            &&& o.state@ == published(sessions[id])
        },
        None => !(reply.ok && sessions.contains_key(id)),
    }
}

/// Says what is to be done after a request about the session `id` was answered.
/// The documents are those of the session as it now stands.
pub fn conclude(
    reply: &Reply,
    sessions: &Table<SessionState>,
    id: &str,
    docs: WrittenDocs,
    now: u64,
) -> (r: Option<Outcome>)
    requires
        sessions.wf(),
    ensures
        follows(r, reply@, sessions@, id@, docs, now),
{
    if !reply.body.ok {
        return None;
    }
    match sessions.get(id) {
        Some(s) => Some(
            Outcome { row: save_session(s, docs, now), room: id.to_owned(), state: publish(s) },
        ),
        None => None,
    }
}

/// A change that was carried out is stored as the session then stands, and shown
/// so in the session's own room.
pub proof fn change_is_stored_and_shown(
    o: Option<Outcome>,
    reply: ReplyView,
    m: Map<Seq<char>, SessionView>,
    id: Seq<char>,
    changed: SessionView,
    docs: WrittenDocs,
    now: u64,
)
    requires
        reply.ok,
        follows(o, reply, m.insert(id, changed), id, docs, now),
    ensures
        o matches Some(out) && stored_as(out.row, changed, docs, now) && out.room@ == id
            && out.state@ == published(changed),
{
}

/// A technician's change with the session's own token is stored once and shown
/// once, in the session's room, as the session stands after it.
pub proof fn update_is_stored_and_shown(
    o: Option<Outcome>,
    m: Map<Seq<char>, SessionView>,
    id: Seq<char>,
    req: UpdateRequest,
    docs: WrittenDocs,
    now: u64,
    saved: u64,
)
    requires
        update_refusal(m, id, req.tech_token@) is None,
        follows(
            o,
            done("Updated"@),
            m.insert(id, after_update(m[id], req, now)),
            id,
            docs,
            saved,
        ),
    ensures
        o matches Some(out) && stored_as(out.row, after_update(m[id], req, now), docs, saved)
            && out.room@ == id && out.state@ == published(after_update(m[id], req, now)),
{
    change_is_stored_and_shown(
        o,
        done("Updated"@),
        m,
        id,
        after_update(m[id], req, now),
        docs,
        saved,
    );
}

/// After a request that a driver or a technician was refused, nothing is stored
/// and nothing is shown.
pub proof fn refusal_is_not_stored_or_shown(
    o: Option<Outcome>,
    reply: ReplyView,
    m: Map<Seq<char>, SessionView>,
    id: Seq<char>,
    token: Seq<char>,
    docs: WrittenDocs,
    now: u64,
)
    requires
        driver_refusal(m, id, token) == Some(reply) || update_refusal(m, id, token) == Some(reply),
        follows(o, reply, m, id, docs, now),
    ensures
        o is None,
{
}

} // verus!
