//! Paginated query sessions.
//!
//! A session is a cursor over the records of one chromosome window that
//! pass a filter. It remembers the position of the record it returned
//! last; the next page is the first passing record behind that position.
//! The manager neither reads records nor evaluates filters nor tells the
//! time: the caller hands it the candidates of the window with the
//! filter's verdict on each, a fresh session id, and the clock's reading.

use crate::chromosome::{resolve, resolve_chromosome};
use crate::coordinate::{check_window, is_window};
use crate::variant::Variant;
use vstd::hash_map::StringHashMap;
use vstd::prelude::*;
use vstd::string::*;

verus! {

/// The age in seconds beyond which a session is expired: five minutes.
pub const SESSION_TIMEOUT_SECS: u64 = 300;

/// What the filter evaluator said of a record. A record on which the
/// evaluation failed does not pass.
#[derive(Debug, Clone, Copy, PartialEq, Eq, Structural)]
pub enum FilterVerdict {
    Match,
    NoMatch,
    Error,
}

/// A record of the window with the filter's verdict on it.
#[derive(Debug, Clone, PartialEq)]
pub struct Candidate {
    pub variant: Variant,
    pub verdict: FilterVerdict,
}

/// The state of one session.
#[derive(Debug, Clone, PartialEq)]
pub struct QuerySession {
    pub chromosome: String,
    pub start: u64,
    pub end: u64,
    pub last_position: u64,
    pub filter: String,
    pub created_at: u64,
}

/// Why a session could not be advanced.
#[derive(Debug, Clone, Copy, PartialEq, Eq, Structural)]
pub enum SessionError {
    SessionNotFound,
    SessionExpired,
}

/// One page of a session: the record, if there is one; the session's id
/// while the session stays open; and whether it stays open, so that a
/// further call may bring a record.
#[derive(Debug, Clone, PartialEq)]
pub struct Page {
    pub variant: Option<Variant>,
    pub session_id: Option<String>,
    pub has_more: bool,
}

/// What starting a session gave: the chromosome as the file spells it, if
/// the file knows it, and the first page.
#[derive(Debug, Clone, PartialEq)]
pub struct StartOutcome {
    pub matched_chromosome: Option<String>,
    pub page: Page,
}

/// A page as plain values: the record, whether the session stays open, and
/// the view of the session id.
pub type PageModel = (Option<Variant>, bool, Option<Seq<char>>);

impl Page {
    pub open spec fn model(self) -> PageModel {
        (
            self.variant,
            self.has_more,
            match self.session_id {
                Some(id) => Some(id@),
                None => None,
            },
        )
    }
}

/// The page that holds nothing and leaves no session open.
pub open spec fn empty_page() -> PageModel {
    (None, false, None)
}

/// The candidate passed the filter and lies on `chromosome` at a position
/// within the window `[lo, hi]`.
pub open spec fn qualifies(c: Candidate, chromosome: Seq<char>, lo: u64, hi: u64) -> bool {
    &&& is_window(lo, hi)
    &&& c.verdict == FilterVerdict::Match
    &&& c.variant.chromosome@ == chromosome
    &&& lo <= c.variant.position <= hi
}

/// Some candidate qualifies.
pub open spec fn has_match(s: Seq<Candidate>, chromosome: Seq<char>, lo: u64, hi: u64) -> bool {
    exists|j: int| 0 <= j < s.len() && qualifies(#[trigger] s[j], chromosome, lo, hi)
}

/// The candidate at `k` qualifies and none before it does.
pub open spec fn is_first_match(
    s: Seq<Candidate>,
    k: int,
    chromosome: Seq<char>,
    lo: u64,
    hi: u64,
) -> bool {
    &&& 0 <= k < s.len()
    &&& qualifies(s[k], chromosome, lo, hi)
    &&& forall|j: int| 0 <= j < k ==> !qualifies(#[trigger] s[j], chromosome, lo, hi)
}

/// The record of the first candidate that qualifies.
pub open spec fn found_variant(s: Seq<Candidate>, chromosome: Seq<char>, lo: u64, hi: u64) -> Option<
    Variant,
> {
    if has_match(s, chromosome, lo, hi) {
        Some(s[choose|k: int| is_first_match(s, k, chromosome, lo, hi)].variant)
    } else {
        None
    }
}

/// A candidate qualifies behind `position`, up to `hi`.
pub open spec fn more_after(s: Seq<Candidate>, chromosome: Seq<char>, position: u64, hi: u64) -> bool {
    position < u64::MAX && has_match(s, chromosome, (position + 1) as u64, hi)
}

/// The session is older than the timeout at the time `now`.
pub open spec fn is_expired(session: QuerySession, now: u64) -> bool {
    now > session.created_at && now - session.created_at > SESSION_TIMEOUT_SECS
}

/// The next record of a session: the first candidate that qualifies
/// behind the position returned last, up to the window's end.
pub open spec fn next_variant(session: QuerySession, s: Seq<Candidate>) -> Option<Variant> {
    if session.last_position < u64::MAX {
        found_variant(s, session.chromosome@, (session.last_position + 1) as u64, session.end)
    } else {
        None
    }
}

/// The session with its cursor moved to `position`.
pub open spec fn moved_to(session: QuerySession, position: u64) -> QuerySession {
    QuerySession { last_position: position, ..session }
}

/// What advancing the session `id` answers.
pub open spec fn advance_reply(
    sessions: Map<Seq<char>, QuerySession>,
    id: Seq<char>,
    now: u64,
    s: Seq<Candidate>,
) -> Result<PageModel, SessionError> {
    if !sessions.contains_key(id) {
        Err(SessionError::SessionNotFound)
    } else if is_expired(sessions[id], now) {
        Err(SessionError::SessionExpired)
    } else {
        match next_variant(sessions[id], s) {
            None => Ok(empty_page()),
            Some(v) => {
                if more_after(s, sessions[id].chromosome@, v.position, sessions[id].end) {
                    Ok((Some(v), true, Some(id)))
                } else {
                    Ok((Some(v), false, None))
                }
            },
        }
    }
}

/// The sessions that advancing the session `id` leaves: the session moves
/// to the record it returned if a further record waits, and is gone if it
/// was expired, found nothing, or returned its last record.
pub open spec fn after_advance(
    sessions: Map<Seq<char>, QuerySession>,
    id: Seq<char>,
    now: u64,
    s: Seq<Candidate>,
) -> Map<Seq<char>, QuerySession> {
    if !sessions.contains_key(id) {
        sessions
    } else if is_expired(sessions[id], now) {
        sessions.remove(id)
    } else {
        match next_variant(sessions[id], s) {
            None => sessions.remove(id),
            Some(v) => {
                if more_after(s, sessions[id].chromosome@, v.position, sessions[id].end) {
                    sessions.insert(id, moved_to(sessions[id], v.position))
                } else {
                    sessions.remove(id)
                }
            },
        }
    }
}

/// Advancing a session that does not exist answers "not found" and
/// changes nothing, however often it is done.
pub proof fn lemma_absent_session_is_not_found(
    sessions: Map<Seq<char>, QuerySession>,
    id: Seq<char>,
    now: u64,
    s: Seq<Candidate>,
)
    requires
        !sessions.contains_key(id),
    ensures
        advance_reply(sessions, id, now, s) == Err::<PageModel, SessionError>(
            SessionError::SessionNotFound,
        ),
        after_advance(sessions, id, now, s) == sessions,
{
}

/// A session that answered without a further record to come is gone:
/// advancing it again, at any time and with any candidates, answers
/// "not found" and never a record.
pub proof fn lemma_finished_session_is_not_found(
    sessions: Map<Seq<char>, QuerySession>,
    id: Seq<char>,
    now: u64,
    s: Seq<Candidate>,
    later: u64,
    t: Seq<Candidate>,
)
    requires
        match advance_reply(sessions, id, now, s) {
            Ok(page) => !page.1,
            Err(_) => true,
        },
    ensures
        !after_advance(sessions, id, now, s).contains_key(id),
        advance_reply(after_advance(sessions, id, now, s), id, later, t) == Err::<
            PageModel,
            SessionError,
        >(SessionError::SessionNotFound),
{
}

/// A session that stays open has moved forward: its cursor stands behind
/// where it stood.
pub proof fn lemma_open_session_moves_forward(
    sessions: Map<Seq<char>, QuerySession>,
    id: Seq<char>,
    now: u64,
    s: Seq<Candidate>,
)
    requires
        sessions.contains_key(id),
        after_advance(sessions, id, now, s).contains_key(id),
    ensures
        after_advance(sessions, id, now, s)[id].last_position > sessions[id].last_position,
{
    let session = sessions[id];
    let lo = (session.last_position + 1) as u64;
    let j = choose|j: int|
        0 <= j < s.len() && qualifies(#[trigger] s[j], session.chromosome@, lo, session.end);
    lemma_first_match_exists(s, j, session.chromosome@, lo, session.end);
}

/// Where a candidate qualifies, there is a first that does.
pub proof fn lemma_first_match_exists(
    s: Seq<Candidate>,
    j: int,
    chromosome: Seq<char>,
    lo: u64,
    hi: u64,
)
    requires
        0 <= j < s.len(),
        qualifies(s[j], chromosome, lo, hi),
    ensures
        exists|k: int| is_first_match(s, k, chromosome, lo, hi),
    decreases j,
{
    if exists|i: int| 0 <= i < j && qualifies(#[trigger] s[i], chromosome, lo, hi) {
        let i = choose|i: int| 0 <= i < j && qualifies(#[trigger] s[i], chromosome, lo, hi);
        lemma_first_match_exists(s, i, chromosome, lo, hi);
    } else {
        assert(is_first_match(s, j, chromosome, lo, hi));
    }
}

/// Tells whether a candidate qualifies for a window already checked.
fn passes(c: &Candidate, chromosome: &String, lo: u64, hi: u64) -> (yes: bool)
    requires
        is_window(lo, hi),
    ensures
        yes == qualifies(*c, chromosome@, lo, hi),
{
    let matched = match c.verdict {
        FilterVerdict::Match => true,
        FilterVerdict::NoMatch => false,
        FilterVerdict::Error => false,
    };
    matched && c.variant.chromosome == *chromosome && lo <= c.variant.position
        && c.variant.position <= hi
}

/// Takes the record of the first candidate that qualifies for `[lo, hi]`
/// on `chromosome`, and tells whether a candidate qualifies behind it.
pub fn take_first_match(candidates: Vec<Candidate>, chromosome: &String, lo: u64, hi: u64) -> (taken: (
    Option<Variant>,
    bool,
))
    ensures
        taken.0 == found_variant(candidates@, chromosome@, lo, hi),
        taken.1 == (taken.0 is Some && more_after(
            candidates@,
            chromosome@,
            taken.0.unwrap().position,
            hi,
        )),
{
    let ghost all = candidates@;
    if !check_window(lo, hi) {
        return (None, false);
    }
    let mut found: Option<Variant> = None;
    let mut more: bool = false;
    let ghost mut first: int = 0;
    for c in it: candidates.into_iter()
        invariant
            it.seq() == all,
            is_window(lo, hi),
            found is None ==> !more && forall|j: int|
                0 <= j < it.index() ==> !qualifies(#[trigger] all[j], chromosome@, lo, hi),
            found is Some ==> {
                &&& first < it.index()
                &&& is_first_match(all, first, chromosome@, lo, hi)
                &&& all[first].variant == found.unwrap()
                &&& more ==> more_after(all, chromosome@, found.unwrap().position, hi)
                &&& !more ==> forall|j: int|
                    0 <= j < it.index() ==> !(found.unwrap().position < u64::MAX && qualifies(
                        #[trigger] all[j],
                        chromosome@,
                        (found.unwrap().position + 1) as u64,
                        hi,
                    ))
            },
    {
        let ghost i = it.index() as int;
        assert(c == all[i]);
        match &found {
            None => {
                if passes(&c, chromosome, lo, hi) {
                    proof {
                        first = i;
                    }
                    found = Some(c.variant);
                }
            },
            Some(v) => {
                if !more && v.position < hi && check_window(v.position + 1, hi) {
                    if passes(&c, chromosome, v.position + 1, hi) {
                        more = true;
                    }
                }
            },
        }
    }
    proof {
        if found is Some {
            assert(qualifies(all[first], chromosome@, lo, hi));
            let k = choose|k: int| is_first_match(all, k, chromosome@, lo, hi);
            assert(k == first) by {
                if k < first {
                    assert(!qualifies(all[k], chromosome@, lo, hi));
                }
                if first < k {
                    assert(!qualifies(all[first], chromosome@, lo, hi));
                }
            }
        }
    }
    (found, more)
}

/// Copies a session.
fn copy_session(session: &QuerySession) -> (copy: QuerySession)
    ensures
        copy == *session,
{
    QuerySession {
        chromosome: session.chromosome.clone(),
        start: session.start,
        end: session.end,
        last_position: session.last_position,
        filter: session.filter.clone(),
        created_at: session.created_at,
    }
}

/// The sessions that are open, each under its id.
pub struct SessionManager {
    pub sessions: StringHashMap<QuerySession>,
}

impl SessionManager {
    /// A manager without sessions.
    pub fn new() -> (manager: SessionManager)
        ensures
            manager.sessions@ == Map::<Seq<char>, QuerySession>::empty(),
    {
        SessionManager { sessions: StringHashMap::new() }
    }

    /// How many sessions are open.
    pub fn len(&self) -> (n: usize)
        ensures
            n == self.sessions@.len(),
    {
        self.sessions.len()
    }

    /// The state of the session `session_id`, if it is open.
    pub fn get(&self, session_id: &str) -> (session: Option<QuerySession>)
        ensures
            session == if self.sessions@.contains_key(session_id@) {
                Some(self.sessions@[session_id@])
            } else {
                None
            },
    {
        match self.sessions.get(session_id) {
            Some(session) => Some(copy_session(session)),
            None => None,
        }
    }

    /// Starts a session under the fresh id `session_id` at the time `now`.
    /// If the file does not know the chromosome, or no candidate
    /// qualifies for the window, no session is opened and the page is
    /// empty. Otherwise the page holds the first record that qualifies,
    /// and a session is opened whose cursor stands at it.
    pub fn start(
        &mut self,
        names: &Vec<String>,
        session_id: String,
        now: u64,
        candidates: Vec<Candidate>,
        chromosome: &str,
        start: u64,
        end: u64,
        filter: &str,
    ) -> (outcome: StartOutcome)
        ensures
            outcome.matched_chromosome is Some == resolve(names@, chromosome@) is Some,
            outcome.matched_chromosome is Some ==> Some(outcome.matched_chromosome.unwrap()@)
                == resolve(names@, chromosome@),
            outcome.page.variant == match resolve(names@, chromosome@) {
                Some(name) => found_variant(candidates@, name, start, end),
                None => None,
            },
            outcome.page.variant is None ==> outcome.page.model() == empty_page(),
            outcome.page.variant is None ==> final(self).sessions@ == old(self).sessions@,
            outcome.page.variant is Some ==> {
                let opened = final(self).sessions@[session_id@];
                &&& outcome.page.model() == (outcome.page.variant, true, Some(session_id@))
                &&& final(self).sessions@ == old(self).sessions@.insert(session_id@, opened)
                &&& Some(opened.chromosome@) == resolve(names@, chromosome@)
                &&& opened.start == start
                &&& opened.end == end
                &&& opened.last_position == outcome.page.variant.unwrap().position
                &&& opened.filter@ == filter@
                &&& opened.created_at == now
            },
    {
        let nothing = Page { variant: None, session_id: None, has_more: false };
        match resolve_chromosome(names, chromosome) {
            None => StartOutcome { matched_chromosome: None, page: nothing },
            Some(name) => {
                let taken = take_first_match(candidates, &name, start, end);
                match taken.0 {
                    None => StartOutcome { matched_chromosome: Some(name), page: nothing },
                    Some(v) => {
                        let session = QuerySession {
                            chromosome: name.clone(),
                            start,
                            end,
                            last_position: v.position,
                            filter: String::from_str(filter),
                            created_at: now,
                        };
                        self.sessions.insert(session_id.clone(), session);
                        StartOutcome {
                            matched_chromosome: Some(name),
                            page: Page {
                                variant: Some(v),
                                session_id: Some(session_id),
                                has_more: true,
                            },
                        }
                    },
                }
            },
        }
    }

    /// Advances the session `session_id` at the time `now`, given the
    /// candidates of its window.
    pub fn advance(&mut self, session_id: &str, now: u64, candidates: Vec<Candidate>) -> (outcome:
        Result<Page, SessionError>)
        ensures
            final(self).sessions@ == after_advance(
                old(self).sessions@,
                session_id@,
                now,
                candidates@,
            ),
            match outcome {
                Ok(page) => advance_reply(old(self).sessions@, session_id@, now, candidates@)
                    == Ok::<PageModel, SessionError>(page.model()),
                Err(e) => advance_reply(old(self).sessions@, session_id@, now, candidates@)
                    == Err::<PageModel, SessionError>(e),
            },
    {
        let session = match self.get(session_id) {
            Some(session) => session,
            None => {
                return Err(SessionError::SessionNotFound);
            },
        };
        if now > session.created_at && now - session.created_at > SESSION_TIMEOUT_SECS {
            self.sessions.remove(session_id);
            return Err(SessionError::SessionExpired);
        }
        if session.last_position == u64::MAX {
            self.sessions.remove(session_id);
            return Ok(Page { variant: None, session_id: None, has_more: false });
        }
        let taken = take_first_match(
            candidates,
            &session.chromosome,
            session.last_position + 1,
            session.end,
        );
        match taken.0 {
            None => {
                self.sessions.remove(session_id);
                Ok(Page { variant: None, session_id: None, has_more: false })
            },
            Some(v) => {
                if taken.1 {
                    let id = String::from_str(session_id);
                    let moved = QuerySession {
                        chromosome: session.chromosome,
                        start: session.start,
                        end: session.end,
                        last_position: v.position,
                        filter: session.filter,
                        created_at: session.created_at,
                    };
                    self.sessions.insert(id.clone(), moved);
                    Ok(Page { variant: Some(v), session_id: Some(id), has_more: true })
                } else {
                    self.sessions.remove(session_id);
                    Ok(Page { variant: Some(v), session_id: None, has_more: false })
                }
            },
        }
    }

    /// Closes the session `session_id` and tells whether it was open.
    pub fn close(&mut self, session_id: &str) -> (existed: bool)
        ensures
            existed == old(self).sessions@.contains_key(session_id@),
            final(self).sessions@ == old(self).sessions@.remove(session_id@),
    {
        let existed = self.sessions.contains_key(session_id);
        self.sessions.remove(session_id);
        existed
    }
}

} // verus!
