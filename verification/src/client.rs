//! How the clients read the engine's replies.

use vstd::prelude::*;

use crate::chars::{chars_of, copy_str, string_of};
use crate::session::{concat_all, Session};
use crate::endpoint::opt_view;
use crate::payload::{json_text_member, payload_text_member, single_member_object};
use crate::proto::{Frame, COMMIT, ERROR, PARTIAL, READY, STOPPED};
use vstd::utf8::encode_utf8;

verus! {

/// A reply of the engine, as the clients see it.
#[derive(Debug, PartialEq, Eq)]
pub enum EngineReply {
    Ready,
    Partial(String),
    Commit(String),
    Stopped,
    Error,
    Other(u8),
}

/// The text if there is one, else the empty text.
pub open spec fn opt_text_or_empty(t: Option<Seq<char>>) -> Seq<char> {
    match t {
        Some(s) => s,
        None => Seq::empty(),
    }
}

/// The text member of a payload, or the empty text.
pub open spec fn text_or_empty(payload: Seq<u8>) -> Seq<char> {
    opt_text_or_empty(json_text_member(payload))
}

/// The reply of a frame of type `kind` whose payload's text member is
/// `text`: PARTIAL and COMMIT carry that text (empty when there is none).
pub fn reply_from(kind: u8, text: Option<String>) -> (r: EngineReply)
    ensures
        kind == READY ==> r == EngineReply::Ready,
        kind == PARTIAL ==> (r matches EngineReply::Partial(t) && t@ == opt_text_or_empty(
            opt_view(text),
        )),
        kind == COMMIT ==> (r matches EngineReply::Commit(t) && t@ == opt_text_or_empty(
            opt_view(text),
        )),
        kind == STOPPED ==> r == EngineReply::Stopped,
        kind == ERROR ==> r == EngineReply::Error,
        kind != READY && kind != PARTIAL && kind != COMMIT && kind != STOPPED && kind != ERROR
            ==> r == EngineReply::Other(kind),
{
    let t = match text {
        Some(t) => t,
        None => String::new(),
    };
    if kind == READY {
        EngineReply::Ready
    } else if kind == PARTIAL {
        EngineReply::Partial(t)
    } else if kind == COMMIT {
        EngineReply::Commit(t)
    } else if kind == STOPPED {
        EngineReply::Stopped
    } else if kind == ERROR {
        EngineReply::Error
    } else {
        EngineReply::Other(kind)
    }
}

/// Reads one reply frame; PARTIAL and COMMIT carry the text member of the
/// payload (empty when there is none), so a payload written by
/// `text_payload` gives its text back.
pub fn classify_reply(frame: &Frame) -> (r: EngineReply)
    ensures
        frame.kind == READY ==> r == EngineReply::Ready,
        frame.kind == PARTIAL ==> (r matches EngineReply::Partial(t) && t@ == text_or_empty(
            frame.payload@,
        )),
        frame.kind == COMMIT ==> (r matches EngineReply::Commit(t) && t@ == text_or_empty(
            frame.payload@,
        )),
        frame.kind == STOPPED ==> r == EngineReply::Stopped,
        frame.kind == ERROR ==> r == EngineReply::Error,
        frame.kind != READY && frame.kind != PARTIAL && frame.kind != COMMIT && frame.kind
            != STOPPED && frame.kind != ERROR ==> r == EngineReply::Other(frame.kind),
        forall|s: Seq<char>|
            frame.payload@ == #[trigger] encode_utf8(single_member_object("text"@, s)) ==> (
            frame.kind == PARTIAL ==> r == EngineReply::Partial(r->Partial_0) && r->Partial_0@
                == s) && (frame.kind == COMMIT ==> r == EngineReply::Commit(r->Commit_0)
                && r->Commit_0@ == s),
{
    let text = if frame.kind == PARTIAL || frame.kind == COMMIT {
        payload_text_member(frame.payload.as_slice())
    } else {
        None
    };
    reply_from(frame.kind, text)
}

/// The texts of the COMMIT replies of a stream, in order.
pub open spec fn commits_of(rs: Seq<EngineReply>) -> Seq<Seq<char>>
    decreases rs.len(),
{
    if rs.len() == 0 {
        Seq::empty()
    } else {
        match rs.last() {
            EngineReply::Commit(t) => commits_of(rs.drop_last()).push(t@),
            _ => commits_of(rs.drop_last()),
        }
    }
}

/// What the recording client does with one reply.
#[derive(Debug, PartialEq, Eq)]
pub enum ClientAction {
    /// Nothing to show.
    Nothing,
    /// Show the partial text.
    ShowPartial(String),
    /// Show a committed text; it is also kept for typing.
    ShowCommit(String),
    /// The session stopped: type this text (when it is not empty) and end.
    Type(String),
}

/// The recording client's state: the commits received so far, which are
/// what it types when the session stops (including those the display no
/// longer shows).
pub struct TypingClient {
    session: Session,
}

impl View for TypingClient {
    type V = Seq<Seq<char>>;

    closed spec fn view(&self) -> Seq<Seq<char>> {
        self.session@
    }
}

impl TypingClient {
    /// A client that has received nothing yet.
    pub fn new() -> (c: Self)
        ensures
            c@ == Seq::<Seq<char>>::empty(),
    {
        TypingClient { session: Session::default() }
    }

    /// Takes one reply into account: a COMMIT is kept and shown, a
    /// PARTIAL shown, and STOPPED gives the text to type: every commit
    /// received, joined.
    pub fn on_reply(&mut self, reply: EngineReply) -> (a: ClientAction)
        ensures
            final(self)@ == old(self)@ + commits_of(seq![reply]),
            match reply {
                EngineReply::Partial(t) => a matches ClientAction::ShowPartial(u) && u@ == t@,
                EngineReply::Commit(t) => a matches ClientAction::ShowCommit(u) && u@ == t@,
                EngineReply::Stopped => a matches ClientAction::Type(u) && u@ == concat_all(
                    old(self)@,
                ),
                _ => a == ClientAction::Nothing,
            },
    {
        proof {
            reveal_with_fuel(commits_of, 2);
        }
        let ghost s1 = seq![reply];
        assert(s1.drop_last() =~= Seq::<EngineReply>::empty());
        match reply {
            EngineReply::Partial(t) => {
                assert(old(self)@ + commits_of(s1) =~= old(self)@);
                ClientAction::ShowPartial(t)
            },
            EngineReply::Commit(t) => {
                let shown = copy_str(t.as_str());
                let ghost tv = t@;
                self.session.push(t);
                assert(commits_of(s1) =~= seq![tv]);
                assert(old(self)@ + commits_of(s1) =~= old(self)@.push(tv));
                ClientAction::ShowCommit(shown)
            },
            EngineReply::Stopped => {
                assert(old(self)@ + commits_of(s1) =~= old(self)@);
                ClientAction::Type(self.session.text())
            },
            _ => {
                assert(old(self)@ + commits_of(s1) =~= old(self)@);
                ClientAction::Nothing
            },
        }
    }
}

proof fn lemma_commits_of_push(rs: Seq<EngineReply>, r: EngineReply)
    ensures
        commits_of(rs.push(r)) == commits_of(rs) + commits_of(seq![r]),
{
    reveal_with_fuel(commits_of, 2);
    assert(rs.push(r).drop_last() =~= rs);
    assert(seq![r].drop_last() =~= Seq::<EngineReply>::empty());
    assert(commits_of(rs) + Seq::<Seq<char>>::empty() =~= commits_of(rs));
    assert(commits_of(rs.push(r)) =~= commits_of(rs) + commits_of(seq![r]));
}

/// Over a whole reply stream taken reply by reply from a new client (each
/// step as `on_reply` states it), the client holds the COMMIT texts of the
/// stream in order, so what it types at STOPPED is all of them joined.
pub proof fn lemma_stream_commits(views: Seq<Seq<Seq<char>>>, rs: Seq<EngineReply>)
    requires
        views.len() == rs.len() + 1,
        views[0] == Seq::<Seq<char>>::empty(),
        forall|i: int|
            0 <= i < rs.len() ==> #[trigger] views[i + 1] == views[i] + commits_of(seq![rs[i]]),
    ensures
        views.last() == commits_of(rs),
    decreases rs.len(),
{
    if rs.len() > 0 {
        let p = rs.drop_last();
        let vp = views.drop_last();
        assert forall|i: int| 0 <= i < p.len() implies #[trigger] vp[i + 1] == vp[i] + commits_of(
            seq![p[i]],
        ) by {
            assert(vp[i + 1] == views[i + 1]);
            assert(views[i + 1] == views[i] + commits_of(seq![rs[i]]));
        }
        lemma_stream_commits(vp, p);
        lemma_commits_of_push(p, rs.last());
        assert(rs == p.push(rs.last()));
        assert(views[rs.len() as int] == views[p.len() as int] + commits_of(
            seq![rs[p.len() as int]],
        ));
    }
}

/// The last `n` characters of `text` (all of it when shorter): the part
/// of a long partial text that fits on a terminal line.
pub fn tail_chars(text: &str, n: usize) -> (t: String)
    ensures
        t@ == if text@.len() <= n {
            text@
        } else {
            text@.skip(text@.len() - n)
        },
{
    let cs = chars_of(text);
    let start = if cs.len() <= n {
        0
    } else {
        cs.len() - n
    };
    let t = string_of(vstd::slice::slice_subrange(cs.as_slice(), start, cs.len()));
    assert(cs@.subrange(start as int, cs@.len() as int) =~= cs@.skip(start as int));
    t
}

/// Why a reply stream could not be collected.
#[derive(Debug, Clone, Copy, PartialEq, Eq)]
pub enum CollectError {
    /// A COMMIT payload without a string member `text`.
    MissingText,
    /// The engine answered ERROR.
    EngineError,
    /// A frame of a type that no reply has.
    UnknownKind(u8),
}

pub open spec fn texts_view(v: Seq<String>) -> Seq<Seq<char>> {
    v.map_values(|t: String| t@)
}

pub open spec fn sessions_view(v: Seq<Vec<String>>) -> Seq<Seq<Seq<char>>> {
    v.map_values(|s: Vec<String>| texts_view(s@))
}

/// The committed texts of each session of a reply stream: COMMIT texts
/// are gathered until STOPPED closes the session.
pub struct SessionCollector {
    sessions: Vec<Vec<String>>,
    current: Vec<String>,
}

impl SessionCollector {
    /// Texts of the sessions closed so far.
    pub closed spec fn spec_sessions(self) -> Seq<Seq<Seq<char>>> {
        sessions_view(self.sessions@)
    }

    /// Texts committed in the session not closed yet.
    pub closed spec fn spec_current(self) -> Seq<Seq<char>> {
        texts_view(self.current@)
    }

    pub fn new() -> (c: Self)
        ensures
            c.spec_sessions().len() == 0,
            c.spec_current().len() == 0,
    {
        SessionCollector { sessions: Vec::new(), current: Vec::new() }
    }

    /// Takes into account a frame of type `kind` whose payload's text
    /// member is `text`. READY and PARTIAL change nothing; COMMIT adds its
    /// text to the open session; STOPPED closes it.
    pub fn accept_parsed(&mut self, kind: u8, text: Option<String>) -> (r: Result<(), CollectError>)
        ensures
            kind == COMMIT ==> match text {
                Some(t) => r is Ok && final(self).spec_current() == old(self).spec_current().push(
                    t@,
                ) && final(self).spec_sessions() == old(self).spec_sessions(),
                None => r == Err::<(), CollectError>(CollectError::MissingText)
                    && final(self).spec_current() == old(self).spec_current()
                    && final(self).spec_sessions() == old(self).spec_sessions(),
            },
            kind == STOPPED ==> r is Ok && final(self).spec_sessions() == old(
                self,
            ).spec_sessions().push(old(self).spec_current()) && final(self).spec_current().len()
                == 0,
            kind == PARTIAL || kind == READY ==> r is Ok && final(self).spec_sessions() == old(
                self,
            ).spec_sessions() && final(self).spec_current() == old(self).spec_current(),
            kind == ERROR ==> r == Err::<(), CollectError>(CollectError::EngineError),
            kind != COMMIT && kind != STOPPED && kind != PARTIAL && kind != READY && kind != ERROR
                ==> r == Err::<(), CollectError>(CollectError::UnknownKind(kind)),
    {
        if kind == COMMIT {
            match text {
                Some(t) => {
                    let ghost before = self.spec_current();
                    self.current.push(t);
                    assert(self.spec_current() =~= before.push(t@));
                    Ok(())
                },
                None => Err(CollectError::MissingText),
            }
        } else if kind == STOPPED {
            let ghost before = self.spec_sessions();
            let ghost cur = self.spec_current();
            let mut done: Vec<String> = Vec::new();
            std::mem::swap(&mut done, &mut self.current);
            self.sessions.push(done);
            assert(self.spec_sessions() =~= before.push(cur));
            Ok(())
        } else if kind == PARTIAL || kind == READY {
            Ok(())
        } else if kind == ERROR {
            Err(CollectError::EngineError)
        } else {
            Err(CollectError::UnknownKind(kind))
        }
    }

    /// Takes one frame into account (see `accept_parsed`); a COMMIT
    /// written with `text_payload` adds its text.
    pub fn accept(&mut self, frame: &Frame) -> (r: Result<(), CollectError>)
        ensures
            frame.kind == COMMIT ==> match json_text_member(frame.payload@) {
                Some(t) => r is Ok && final(self).spec_current() == old(self).spec_current().push(t)
                    && final(self).spec_sessions() == old(self).spec_sessions(),
                None => r == Err::<(), CollectError>(CollectError::MissingText)
                    && final(self).spec_current() == old(self).spec_current()
                    && final(self).spec_sessions() == old(self).spec_sessions(),
            },
            frame.kind == COMMIT ==> forall|s: Seq<char>|
                frame.payload@ == #[trigger] encode_utf8(single_member_object("text"@, s)) ==> r is Ok
                    && final(self).spec_current() == old(self).spec_current().push(s),
            frame.kind == STOPPED ==> r is Ok && final(self).spec_sessions() == old(
                self,
            ).spec_sessions().push(old(self).spec_current()) && final(self).spec_current().len()
                == 0,
            frame.kind == PARTIAL || frame.kind == READY ==> r is Ok && final(self).spec_sessions()
                == old(self).spec_sessions() && final(self).spec_current() == old(
                self,
            ).spec_current(),
            frame.kind == ERROR ==> r == Err::<(), CollectError>(CollectError::EngineError),
            frame.kind != COMMIT && frame.kind != STOPPED && frame.kind != PARTIAL && frame.kind
                != READY && frame.kind != ERROR ==> r == Err::<(), CollectError>(
                CollectError::UnknownKind(frame.kind),
            ),
    {
        let text = if frame.kind == COMMIT {
            payload_text_member(frame.payload.as_slice())
        } else {
            None
        };
        self.accept_parsed(frame.kind, text)
    }

    /// The closed sessions' texts, the collector being done.
    pub fn into_sessions(self) -> (s: Vec<Vec<String>>)
        ensures
            sessions_view(s@) == self.spec_sessions(),
    {
        self.sessions
    }
}

} // verus!
