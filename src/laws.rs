use vstd::prelude::*;
use crate::chat::{
    is_blank, level_of, next_log, next_roster, profiles, report_of, Level, Line, Profile, Report,
};
use crate::codec::{decoded, encoded, EnvelopeView};
use crate::grammar::{object, skip_ws};
use crate::roundtrip::lemma_round_trip;
use crate::text::{is_space, trim_end, trimmed};

verus! {

proof fn lemma_trim_end_keeps(t: Seq<char>)
    requires
        t.len() > 0,
        !is_space(t[0]),
    ensures
        trim_end(t).len() > 0,
    decreases t.len(),
{
    if is_space(t.last()) {
        lemma_trim_end_keeps(t.drop_last());
    }
}

proof fn lemma_blank_all_space(s: Seq<char>)
    requires
        trimmed(s).len() == 0,
    ensures
        forall|i: int| 0 <= i < s.len() ==> is_space(#[trigger] s[i]),
    decreases s.len(),
{
    if s.len() > 0 {
        if is_space(s[0]) {
            lemma_blank_all_space(s.drop_first());
            assert forall|i: int| 0 <= i < s.len() implies is_space(#[trigger] s[i]) by {
                if i > 0 {
                    assert(s[i] == s.drop_first()[i - 1]);
                }
            }
        } else {
            lemma_trim_end_keeps(s);
        }
    }
}

/// A frame that decodes to an envelope is not blank.
pub proof fn lemma_decoded_not_blank(s: Seq<char>)
    requires
        decoded(s) is Ok,
    ensures
        !is_blank(s),
{
    if is_blank(s) {
        lemma_blank_all_space(s);
        assert(object(s) is Some);
        let a = skip_ws(s, 0);
        assert(s[a] == '{');
        assert(is_space(s[a]));
    }
}

/// An empty or white-space frame changes neither the roster nor the log.
pub proof fn lemma_blank_frame_no_change(roster: Seq<Profile>, log: Seq<Line>, frame: Seq<char>)
    requires
        is_blank(frame),
    ensures
        next_roster(roster, frame) == roster,
        next_log(log, frame) == log,
        report_of(frame) == Report::Blank,
{
}

/// A frame that is not blank and does not decode changes neither the roster nor
/// the log, and is reported once, at error level.
pub proof fn lemma_rejected_frame_no_change(roster: Seq<Profile>, log: Seq<Line>, frame: Seq<char>)
    requires
        !is_blank(frame),
        decoded(frame) is Err,
    ensures
        next_roster(roster, frame) == roster,
        next_log(log, frame) == log,
        report_of(frame) == Report::Rejected(decoded(frame)->Err_0),
        level_of(report_of(frame)) == Some(Level::Error),
{
}

/// A roster envelope replaces the roster, whatever it held before, with one entry
/// per name in the order of the names.
pub proof fn lemma_roster_replaced(roster: Seq<Profile>, frame: Seq<char>, ns: Seq<Seq<char>>)
    requires
        decoded(frame) == Ok::<EnvelopeView, crate::codec::DecodeError>(EnvelopeView::Users(ns)),
    ensures
        next_roster(roster, frame) == profiles(ns),
{
    lemma_decoded_not_blank(frame);
}

/// The frame that encodes a roster envelope replaces the roster with its names.
pub proof fn lemma_roster_frame(roster: Seq<Profile>, ns: Seq<Seq<char>>)
    ensures
        next_roster(roster, encoded(EnvelopeView::Users(ns))) == profiles(ns),
{
    lemma_round_trip(EnvelopeView::Users(ns));
    lemma_roster_replaced(roster, encoded(EnvelopeView::Users(ns)), ns);
}

/// The log after a sequence of frames, in arrival order.
pub open spec fn run_log(log: Seq<Line>, frames: Seq<Seq<char>>) -> Seq<Line>
    decreases frames.len(),
{
    if frames.len() == 0 {
        log
    } else {
        run_log(next_log(log, frames[0]), frames.drop_first())
    }
}

/// The sender and body of each frame that decodes to a message, in order.
pub open spec fn messages_in(frames: Seq<Seq<char>>) -> Seq<Line>
    decreases frames.len(),
{
    if frames.len() == 0 {
        seq![]
    } else {
        let rest = messages_in(frames.drop_first());
        match decoded(frames[0]) {
            Ok(EnvelopeView::Message(f, b)) => seq![(f, b)] + rest,
            _ => rest,
        }
    }
}

/// The log only grows: after any sequence of frames it is the old log followed by
/// the messages of the frames that decode to one, in arrival order; other frames,
/// malformed ones included, add nothing.
pub proof fn lemma_log_append_only(log: Seq<Line>, frames: Seq<Seq<char>>)
    ensures
        run_log(log, frames) == log + messages_in(frames),
    decreases frames.len(),
{
    if frames.len() == 0 {
        assert(log + seq![] =~= log);
    } else {
        let f = frames[0];
        lemma_log_append_only(next_log(log, f), frames.drop_first());
        match decoded(f) {
            Ok(EnvelopeView::Message(a, b)) => {
                lemma_decoded_not_blank(f);
                assert(log.push((a, b)) + messages_in(frames.drop_first()) =~= log + (seq![(a, b)]
                    + messages_in(frames.drop_first())));
            },
            _ => {},
        }
    }
}

/// The messages of `frames` followed by one more frame.
pub proof fn lemma_messages_in_push(frames: Seq<Seq<char>>, f: Seq<char>, log: Seq<Line>)
    ensures
        next_log(log + messages_in(frames), f) == log + messages_in(frames.push(f)),
    decreases frames.len(),
{
    if frames.len() == 0 {
        assert(frames.push(f).drop_first() =~= Seq::<Seq<char>>::empty());
        assert(messages_in(frames.push(f).drop_first()) == Seq::<Line>::empty());
        match decoded(f) {
            Ok(EnvelopeView::Message(a, b)) => {
                lemma_decoded_not_blank(f);
                assert(log + messages_in(frames) =~= log);
                assert(log.push((a, b)) =~= log + (seq![(a, b)] + Seq::<Line>::empty()));
            },
            _ => {
                assert(log + messages_in(frames) =~= log);
                assert(log =~= log + Seq::<Line>::empty());
            },
        }
    } else {
        let g = frames[0];
        let rest = frames.drop_first();
        assert(frames.push(f).drop_first() =~= rest.push(f));
        assert(frames.push(f)[0] == g);
        let head: Seq<Line> = match decoded(g) {
            Ok(EnvelopeView::Message(a, b)) => seq![(a, b)],
            _ => seq![],
        };
        assert(messages_in(frames) == head + messages_in(rest));
        assert(messages_in(frames.push(f)) == head + messages_in(rest.push(f)));
        lemma_messages_in_push(rest, f, log + head);
        assert(log + messages_in(frames) =~= (log + head) + messages_in(rest));
        assert(log + messages_in(frames.push(f)) =~= (log + head) + messages_in(rest.push(f)));
    }
}

} // verus!
