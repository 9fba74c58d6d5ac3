//! Reply events and their coalescing into batches.

use vstd::prelude::*;
use vstd::string::StringExecFns;

verus! {

/// One event of a reply stream.
#[derive(Clone, PartialEq, Eq, Debug)]
pub enum ReplyEvent {
    /// A fragment of the reply.
    Text(String),
    /// The reply is complete.
    Done,
}

/// What a `ReplyEvent` stands for.
pub enum ReplyEventView {
    Text(Seq<char>),
    Done,
}

impl View for ReplyEvent {
    type V = ReplyEventView;

    open spec fn view(&self) -> ReplyEventView {
        match self {
            ReplyEvent::Text(s) => ReplyEventView::Text(s@),
            ReplyEvent::Done => ReplyEventView::Done,
        }
    }
}

/// The views of a vector of events.
pub open spec fn events_view(v: Seq<ReplyEvent>) -> Seq<ReplyEventView> {
    v.map_values(|e: ReplyEvent| e@)
}

/// The position of the first `Done` at or after `from` (`evs.len()` when
/// there is none).
pub open spec fn first_done(evs: Seq<ReplyEventView>, from: int) -> int
    decreases evs.len() - from,
{
    if 0 <= from < evs.len() && evs[from] is Text {
        first_done(evs, from + 1)
    } else {
        from
    }
}

/// The fragments of `evs`, in order, as one text.
pub open spec fn joined_text(evs: Seq<ReplyEventView>) -> Seq<char>
    decreases evs.len(),
{
    if evs.len() == 0 {
        Seq::empty()
    } else {
        joined_text(evs.drop_last()) + match evs.last() {
            ReplyEventView::Text(t) => t,
            ReplyEventView::Done => Seq::empty(),
        }
    }
}

/// The batch for what arrived in one window: the fragments that came
/// before the first `Done`, joined into one `Text` where there is at least
/// one of them, then `Done` where it came.
pub open spec fn gathered(evs: Seq<ReplyEventView>) -> Seq<ReplyEventView> {
    let n = first_done(evs, 0);
    let text = if n > 0 {
        seq![ReplyEventView::Text(joined_text(evs.take(n)))]
    } else {
        Seq::empty()
    };
    let done = if n < evs.len() {
        seq![ReplyEventView::Done]
    } else {
        Seq::empty()
    };
    text + done
}

/// Coalesces the events that arrived within one window, in arrival order,
/// into a batch of at most two events. What follows a `Done` is ignored.
pub fn gather_events(received: Vec<ReplyEvent>) -> (batch: Vec<ReplyEvent>)
    ensures
        events_view(batch@) == gathered(events_view(received@)),
        batch@.len() <= 2,
{
    let ghost evs = events_view(received@);
    let mut text = String::new();
    let mut n: usize = 0;
    let mut done = false;
    proof {
        assert(evs.take(0) =~= Seq::<ReplyEventView>::empty());
    }
    while n < received.len() && !done
        invariant
            n <= received.len(),
            evs == events_view(received@),
            first_done(evs, 0) == first_done(evs, n as int),
            text@ == joined_text(evs.take(n as int)),
            done ==> n < received.len() && evs[n as int] is Done,
        decreases received.len() - n + if done { 0int } else { 1int },
    {
        match &received[n] {
            ReplyEvent::Text(t) => {
                proof {
                    assert(evs[n as int] == ReplyEventView::Text(t@));
                    assert(evs.take(n + 1).drop_last() =~= evs.take(n as int));
                }
                text.append(t.as_str());
                n += 1;
            },
            ReplyEvent::Done => {
                assert(evs[n as int] is Done);
                done = true;
            },
        }
    }
    let mut batch: Vec<ReplyEvent> = Vec::new();
    if n > 0 {
        batch.push(ReplyEvent::Text(text));
    }
    if done {
        batch.push(ReplyEvent::Done);
    }
    assert(events_view(batch@) =~= gathered(evs));
    batch
}

} // verus!
