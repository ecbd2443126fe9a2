use vstd::prelude::*;
use crate::avatar::{avatar_for, avatar_url};
use crate::codec::{decode, decoded, encode, encoded, strings, DecodeError, Envelope, EnvelopeView};
use crate::session::WebsocketService;
use crate::laws::{lemma_messages_in_push, messages_in};
use crate::text::{ends_with, has_suffix, to_chars, trim, trimmed};

verus! {

/// An event for the chat view.
pub enum Msg {
    /// One text frame arrived from the server.
    HandleMsg(String),
    /// The local user submitted the text of the input box.
    SubmitMessage(String),
}

/// A user on the roster, with the image shown for them.
#[derive(Clone, Debug)]
pub struct UserProfile {
    pub name: String,
    pub avatar: String,
}

/// One line of the message log.
#[derive(Clone, Debug)]
pub struct MessageData {
    pub from: String,
    pub message: String,
}

/// How loudly an event is reported to the log sink.
#[derive(PartialEq, Eq, Structural, Clone, Copy, Debug)]
pub enum Level {
    Warn,
    Error,
}

/// What handling one inbound frame did.
#[derive(PartialEq, Eq, Structural, Clone, Copy, Debug)]
pub enum Report {
    /// The frame was empty or white space; nothing changed.
    Blank,
    /// The frame is not a valid envelope; nothing changed.
    Rejected(DecodeError),
    /// The roster was replaced.
    RosterReplaced,
    /// A message was appended to the log.
    MessageAppended,
    /// A registration came in; nothing changed.
    Ignored,
}

impl Report {
    /// The level at which this outcome is logged, if at all.
    pub fn level(&self) -> (r: Option<Level>)
        ensures
            r == level_of(*self),
    {
        match self {
            Report::Blank => Some(Level::Warn),
            Report::Rejected(_) => Some(Level::Error),
            _ => None,
        }
    }

    /// Whether the state changed, so that the view must be drawn again.
    pub fn changed(&self) -> (r: bool)
        ensures
            r == (*self == Report::RosterReplaced || *self == Report::MessageAppended),
    {
        match self {
            Report::RosterReplaced | Report::MessageAppended => true,
            _ => false,
        }
    }
}

pub open spec fn level_of(r: Report) -> Option<Level> {
    match r {
        Report::Blank => Some(Level::Warn),
        Report::Rejected(_) => Some(Level::Error),
        _ => None,
    }
}

/// A roster entry: name and image.
pub type Profile = (Seq<char>, Seq<char>);

/// A log entry: sender and body.
pub type Line = (Seq<char>, Seq<char>);

pub open spec fn roster_view(v: Seq<UserProfile>) -> Seq<Profile> {
    v.map_values(|u: UserProfile| (u.name@, u.avatar@))
}

pub open spec fn log_view(v: Seq<MessageData>) -> Seq<Line> {
    v.map_values(|m: MessageData| (m.from@, m.message@))
}

/// The roster for a list of names: one entry per name, in order.
pub open spec fn profiles(ns: Seq<Seq<char>>) -> Seq<Profile> {
    ns.map_values(|n: Seq<char>| (n, avatar_url(n)))
}

/// A frame that is empty or white space only.
pub open spec fn is_blank(frame: Seq<char>) -> bool {
    trimmed(frame).len() == 0
}

/// What handling `frame` reports.
pub open spec fn report_of(frame: Seq<char>) -> Report {
    if is_blank(frame) {
        Report::Blank
    } else {
        match decoded(frame) {
            Err(e) => Report::Rejected(e),
            Ok(EnvelopeView::Users(_)) => Report::RosterReplaced,
            Ok(EnvelopeView::Message(_, _)) => Report::MessageAppended,
            Ok(EnvelopeView::Register(_)) => Report::Ignored,
        }
    }
}

/// The roster after `frame`.
pub open spec fn next_roster(roster: Seq<Profile>, frame: Seq<char>) -> Seq<Profile> {
    if is_blank(frame) {
        roster
    } else {
        match decoded(frame) {
            Ok(EnvelopeView::Users(ns)) => profiles(ns),
            _ => roster,
        }
    }
}

/// The log after `frame`.
pub open spec fn next_log(log: Seq<Line>, frame: Seq<char>) -> Seq<Line> {
    if is_blank(frame) {
        log
    } else {
        match decoded(frame) {
            Ok(EnvelopeView::Message(f, b)) => log.push((f, b)),
            _ => log,
        }
    }
}

/// The image shown beside a message from `from`: that of the first roster entry
/// with exactly that name, else empty.
pub open spec fn sender_avatar(roster: Seq<Profile>, from: Seq<char>) -> Seq<char>
    decreases roster.len(),
{
    if roster.len() == 0 {
        seq![]
    } else if roster[0].0 == from {
        roster[0].1
    } else {
        sender_avatar(roster.drop_first(), from)
    }
}

/// The state of a chat view: the local user, the roster, the message log and
/// the connection's send side.
pub struct Chat {
    pub username: String,
    pub users: Vec<UserProfile>,
    pub messages: Vec<MessageData>,
    pub wss: WebsocketService,
}

fn profiles_for(ns: Vec<String>) -> (r: Vec<UserProfile>)
    ensures
        roster_view(r@) == profiles(strings(ns@)),
{
    let mut out: Vec<UserProfile> = Vec::new();
    let mut i: usize = 0;
    while i < ns.len()
        invariant
            i <= ns.len(),
            roster_view(out@) == profiles(strings(ns@.take(i as int))),
        decreases ns.len() - i,
    {
        let name = ns[i].clone();
        let avatar = avatar_for(name.as_str());
        let ghost before = out@;
        let p = UserProfile { name, avatar };
        out.push(p);
        assert(strings(ns@.take(i + 1)) =~= strings(ns@.take(i as int)).push(ns@[i as int]@));
        assert(roster_view(out@) =~= roster_view(before).push((p.name@, p.avatar@)));
        assert(profiles(strings(ns@.take(i + 1))) =~= profiles(strings(ns@.take(i as int))).push(
            (ns@[i as int]@, avatar_url(ns@[i as int]@)),
        ));
        i += 1;
    }
    assert(ns@.take(i as int) =~= ns@);
    out
}

impl Chat {
    /// A chat view for `username`: empty roster and log, and its registration
    /// handed to a freshly opened connection to `endpoint`.
    pub fn create(username: String, endpoint: String) -> (r: Chat)
        ensures
            r.username@ == username@,
            r.wss.endpoint == endpoint,
            roster_view(r.users@) == Seq::<Profile>::empty(),
            log_view(r.messages@) == Seq::<Line>::empty(),
            r.wss.open,
            r.wss.pending() == seq![encoded(EnvelopeView::Register(username@))],
    {
        let mut wss = WebsocketService::open(endpoint);
        let register = Envelope::Register(username.clone());
        let frame = encode(&register);
        let _ = wss.send(frame);
        assert(wss.pending() =~= seq![encoded(EnvelopeView::Register(username@))]);
        let users: Vec<UserProfile> = Vec::new();
        let messages: Vec<MessageData> = Vec::new();
        assert(roster_view(users@) =~= Seq::<Profile>::empty());
        assert(log_view(messages@) =~= Seq::<Line>::empty());
        Chat { username, users, messages, wss }
    }

    /// Applies one inbound frame to the roster and the log.
    pub fn handle_frame(&mut self, frame: &str) -> (r: Report)
        ensures
            r == report_of(frame@),
            roster_view(final(self).users@) == next_roster(roster_view(old(self).users@), frame@),
            log_view(final(self).messages@) == next_log(log_view(old(self).messages@), frame@),
            final(self).username == old(self).username,
            final(self).wss == old(self).wss,
    {
        let t = trim(frame);
        if to_chars(t.as_str()).len() == 0 {
            return Report::Blank;
        }
        match decode(frame) {
            Err(e) => Report::Rejected(e),
            Ok(Envelope::Users(ns)) => {
                self.users = profiles_for(ns);
                Report::RosterReplaced
            },
            Ok(Envelope::Message(from, message)) => {
                let ghost before = self.messages@;
                let m = MessageData { from, message };
                self.messages.push(m);
                assert(log_view(self.messages@) =~= log_view(before).push((m.from@, m.message@)));
                Report::MessageAppended
            },
            Ok(Envelope::Register(_)) => Report::Ignored,
        }
    }

    /// Applies inbound frames one after another, in arrival order: the log gains
    /// the message of each frame that decodes to one, in that order, and nothing
    /// else.
    pub fn handle_frames(&mut self, frames: &Vec<String>) -> (r: Vec<Report>)
        ensures
            r@.len() == frames@.len(),
            forall|k: int| 0 <= k < frames@.len() ==> r@[k] == report_of(#[trigger] frames@[k]@),
            log_view(final(self).messages@) == log_view(old(self).messages@) + messages_in(
                strings(frames@),
            ),
            final(self).username == old(self).username,
            final(self).wss == old(self).wss,
    {
        let ghost fv = strings(frames@);
        let ghost log0 = log_view(self.messages@);
        let mut reports: Vec<Report> = Vec::new();
        let mut i: usize = 0;
        assert(log0 + messages_in(fv.take(0)) =~= log0) by {
            assert(fv.take(0) =~= Seq::<Seq<char>>::empty());
        }
        while i < frames.len()
            invariant
                i <= frames.len(),
                fv == strings(frames@),
                reports@.len() == i,
                forall|k: int| 0 <= k < i ==> reports@[k] == report_of(#[trigger] frames@[k]@),
                log_view(self.messages@) == log0 + messages_in(fv.take(i as int)),
                self.username == old(self).username,
                self.wss == old(self).wss,
            decreases frames.len() - i,
        {
            let r = self.handle_frame(frames[i].as_str());
            proof {
                lemma_messages_in_push(fv.take(i as int), fv[i as int], log0);
                assert(fv.take(i as int).push(fv[i as int]) =~= fv.take(i + 1));
            }
            reports.push(r);
            i += 1;
        }
        assert(fv.take(i as int) =~= fv);
        reports
    }

    /// Handles one event; returns whether the view must be drawn again. A
    /// submitted text goes out as it is, as a bare frame.
    pub fn update(&mut self, msg: Msg) -> (r: bool)
        ensures
            msg matches Msg::HandleMsg(s) ==> {
                &&& r == (report_of(s@) == Report::RosterReplaced || report_of(s@)
                    == Report::MessageAppended)
                &&& roster_view(final(self).users@) == next_roster(roster_view(old(self).users@), s@)
                &&& log_view(final(self).messages@) == next_log(log_view(old(self).messages@), s@)
                &&& final(self).wss == old(self).wss
            },
            msg matches Msg::SubmitMessage(t) ==> {
                &&& !r
                &&& final(self).users == old(self).users
                &&& final(self).messages == old(self).messages
                &&& final(self).wss.open == old(self).wss.open
                &&& final(self).wss.endpoint == old(self).wss.endpoint
                &&& final(self).wss.pending() == if old(self).wss.open {
                    old(self).wss.pending().push(t@)
                } else {
                    old(self).wss.pending()
                }
            },
            final(self).username == old(self).username,
    {
        match msg {
            Msg::HandleMsg(s) => {
                let report = self.handle_frame(s.as_str());
                report.changed()
            },
            Msg::SubmitMessage(t) => {
                let _ = self.wss.send(t);
                false
            },
        }
    }

    /// The image to show beside a message from `from`, looked up in the roster
    /// as it is now.
    pub fn sender_avatar(&self, from: &str) -> (r: String)
        ensures
            r@ == sender_avatar(roster_view(self.users@), from@),
    {
        let f = to_chars(from);
        let ghost rv = roster_view(self.users@);
        let mut i: usize = 0;
        assert(rv.skip(0) =~= rv);
        while i < self.users.len()
            invariant
                i <= self.users.len(),
                f@ == from@,
                rv == roster_view(self.users@),
                sender_avatar(rv, from@) == sender_avatar(rv.skip(i as int), from@),
            decreases self.users.len() - i,
        {
            assert(rv.skip(i as int)[0] == rv[i as int]);
            if crate::text::same_chars(&to_chars(self.users[i].name.as_str()), &f) {
                return self.users[i].avatar.clone();
            }
            assert(rv.skip(i as int).drop_first() =~= rv.skip(i + 1));
            i += 1;
        }
        assert(rv.skip(i as int) =~= Seq::<Profile>::empty());
        String::new()
    }
}

/// Whether a message body is shown as an image: it names a `.gif`.
pub fn shows_as_image(message: &str) -> (r: bool)
    ensures
        r == has_suffix(message@, ".gif"@),
{
    ends_with(message, ".gif")
}

} // verus!
