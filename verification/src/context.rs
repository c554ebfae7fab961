//! Attaching a message and a source position to a fallible value.

use crate::chain::{
    frames, option_context, option_with_context, result_context, result_with_context,
};
use crate::location::{Location, Position};
use crate::render::Render;
use crate::with_location::{
    framed, lemma_framed_tells_positions_apart, marker, marker_string, WithLocation,
};
use core::convert::Infallible;
use vstd::prelude::*;

verus! {

/// Whether `after` is what becomes of a fallible value that is annotated at
/// `position` with a message that reads `message`.
///
/// The value is given by its success `payload`, if it has one, and otherwise
/// by the frames `cause` of the failure that it carries already. A payload
/// passes through untouched. A failure gains exactly one frame, in front of
/// the others, and the frame reads the message followed by the position.
pub open spec fn annotated<T>(
    payload: Option<T>,
    cause: Seq<Seq<char>>,
    message: Seq<char>,
    position: Position,
    after: Result<T, anyhow::Error>,
) -> bool {
    match payload {
        Some(v) => after is Ok && after->Ok_0 == v,
        None => after is Err && frames(after->Err_0) == seq![framed(message, position)] + cause,
    }
}

/// Attaches context to a fallible value: a message, and the position of the
/// annotating call, which the caller passes as `location`.
///
/// A success passes through. A failure gains one frame, whose text is the
/// message followed by the position.
///
/// `T` is the type of the success payload and `E` that of the failure which
/// the value may hold before the call: `anyhow::Error` for a `Result`,
/// nothing (`Infallible`) for an `Option`.
pub trait Context<T, E> {
    /// The success payload, where the value has one.
    spec fn payload(&self) -> Option<T>;

    /// The frames of the failure that the value carries already, outermost
    /// first; none where it carries no failure of its own.
    spec fn cause(&self) -> Seq<Seq<char>>;

    /// Attaches `context` at `location`.
    fn context<C>(self, context: C, location: Location) -> (r: Result<T, anyhow::Error>) where
        C: Render + Send + Sync + 'static,

        ensures
            annotated(self.payload(), self.cause(), context.text(), location@, r),
    ;

    /// Attaches at `location` what `context` returns.
    ///
    /// `context` is called only where the value is a failure, and so has to
    /// be callable only then. A success comes back without it.
    fn with_context<C, F>(self, context: F, location: Location) -> (r: Result<T, anyhow::Error>) where
        C: Render + Send + Sync + 'static,
        F: FnOnce() -> C,

        requires
            self.payload() is None ==> call_requires(context, ()),
        ensures
            self.payload() is Some ==> r is Ok && r->Ok_0 == self.payload()->0,
            self.payload() is None ==> exists|c: C|
                call_ensures(context, (), c) && annotated(None, self.cause(), c.text(), location@, r),
    ;

    /// Marks that the value passed `location`: attaches, at `location`, the
    /// position's own marker as the message. The frame so reads the position
    /// twice.
    fn dot(self, location: Location) -> (r: Result<T, anyhow::Error>)
        ensures
            annotated(self.payload(), self.cause(), marker(location@), location@, r),
    ;
}

impl<T> Context<T, anyhow::Error> for Result<T, anyhow::Error> {
    open spec fn payload(&self) -> Option<T> {
        match *self {
            Ok(v) => Some(v),
            Err(_) => None,
        }
    }

    open spec fn cause(&self) -> Seq<Seq<char>> {
        match *self {
            Ok(_) => Seq::empty(),
            Err(e) => frames(e),
        }
    }

    fn context<C>(self, context: C, location: Location) -> (r: Result<T, anyhow::Error>) where
        C: Render + Send + Sync + 'static,
    {
        let frame = WithLocation { error: context, location };
        result_context(self, frame.render())
    }

    fn with_context<C, F>(self, context: F, location: Location) -> (r: Result<T, anyhow::Error>) where
        C: Render + Send + Sync + 'static,
        F: FnOnce() -> C,
    {
        let message = move || -> (m: String)
            requires
                call_requires(context, ()),
            ensures
                exists|c: C| call_ensures(context, (), c) && m@ == framed(c.text(), location@),
            {
                let frame = WithLocation { error: context(), location };
                frame.render()
            };
        result_with_context(self, message)
    }

    fn dot(self, location: Location) -> (r: Result<T, anyhow::Error>) {
        self.context(marker_string(location), location)
    }
}

impl<T> Context<T, Infallible> for Option<T> {
    open spec fn payload(&self) -> Option<T> {
        *self
    }

    open spec fn cause(&self) -> Seq<Seq<char>> {
        Seq::empty()
    }

    fn context<C>(self, context: C, location: Location) -> (r: Result<T, anyhow::Error>) where
        C: Render + Send + Sync + 'static,
    {
        let frame = WithLocation { error: context, location };
        option_context(self, frame.render())
    }

    fn with_context<C, F>(self, context: F, location: Location) -> (r: Result<T, anyhow::Error>) where
        C: Render + Send + Sync + 'static,
        F: FnOnce() -> C,
    {
        let message = move || -> (m: String)
            requires
                call_requires(context, ()),
            ensures
                exists|c: C| call_ensures(context, (), c) && m@ == framed(c.text(), location@),
            {
                let frame = WithLocation { error: context(), location };
                frame.render()
            };
        option_with_context(self, message)
    }

    fn dot(self, location: Location) -> (r: Result<T, anyhow::Error>) {
        self.context(marker_string(location), location)
    }
}

/// A success comes back as it went in, whatever the message and the
/// position.
pub proof fn lemma_success_passes_through<T>(
    payload: T,
    cause: Seq<Seq<char>>,
    message: Seq<char>,
    position: Position,
    after: Result<T, anyhow::Error>,
)
    requires
        annotated(Some(payload), cause, message, position, after),
    ensures
        after == Ok::<T, anyhow::Error>(payload),
{
}

/// A failure is wrapped exactly once: the outcome has one frame more, the
/// new frame is outermost and reads the message followed by the position,
/// and beneath it stands the old failure, frame for frame. For an absent
/// value, which has no failure of its own, the new frame is the only one.
pub proof fn lemma_failure_wraps_once<T>(
    cause: Seq<Seq<char>>,
    message: Seq<char>,
    position: Position,
    after: Result<T, anyhow::Error>,
)
    requires
        annotated(None::<T>, cause, message, position, after),
    ensures
        after is Err,
        frames(after->Err_0).len() == cause.len() + 1,
        frames(after->Err_0).first() == framed(message, position),
        frames(after->Err_0).drop_first() == cause,
{
    assert(frames(after->Err_0).drop_first() =~= cause);
}

/// The frame records the position of the annotating call: the same failure,
/// annotated with the same message at two different positions, gives two
/// outcomes whose outermost frames differ.
pub proof fn lemma_positions_tell_frames_apart<T>(
    cause: Seq<Seq<char>>,
    message: Seq<char>,
    p: Position,
    q: Position,
    at_p: Result<T, anyhow::Error>,
    at_q: Result<T, anyhow::Error>,
)
    requires
        p != q,
        annotated(None::<T>, cause, message, p, at_p),
        annotated(None::<T>, cause, message, q, at_q),
    ensures
        frames(at_p->Err_0).first() != frames(at_q->Err_0).first(),
{
    lemma_framed_tells_positions_apart(message, p, q);
}

/// One annotating call, as far as its outcome depends on it: what the
/// message reads, and where the call stands.
pub struct Note {
    /// The text of the message.
    pub message: Seq<char>,
    /// The position of the call.
    pub position: Position,
}

/// The frames that a run of annotating calls leaves, given in the order of
/// the calls: one frame for each call, the latest call outermost.
pub open spec fn stacked(notes: Seq<Note>) -> Seq<Seq<char>>
    decreases notes.len(),
{
    if notes.len() == 0 {
        Seq::empty()
    } else {
        seq![framed(notes.last().message, notes.last().position)] + stacked(notes.drop_last())
    }
}

/// A run of calls leaves as many frames as there were calls, and the frame
/// at depth `i` is that of the call made `i` calls before the last.
pub proof fn lemma_stacked_frames(notes: Seq<Note>)
    ensures
        stacked(notes).len() == notes.len(),
        forall|i: int|
            0 <= i < notes.len() ==> #[trigger] stacked(notes)[i] == framed(
                notes[notes.len() - 1 - i].message,
                notes[notes.len() - 1 - i].position,
            ),
    decreases notes.len(),
{
    if notes.len() > 0 {
        let rest = notes.drop_last();
        lemma_stacked_frames(rest);
        assert forall|i: int| 0 <= i < notes.len() implies #[trigger] stacked(notes)[i] == framed(
            notes[notes.len() - 1 - i].message,
            notes[notes.len() - 1 - i].position,
        ) by {
            if i > 0 {
                assert(stacked(notes)[i] == stacked(rest)[i - 1]);
                assert(rest[rest.len() - i] == notes[notes.len() - 1 - i]);
            }
        }
    }
}

/// Annotating calls pile up: where a failure with the frames `cause` goes
/// through the calls `notes` one after the other, each call taking the
/// outcome of the one before, the last outcome carries one frame for each
/// call, the latest call outermost, and beneath them the frames of `cause`.
pub proof fn lemma_calls_pile_up<T>(
    cause: Seq<Seq<char>>,
    notes: Seq<Note>,
    outcomes: Seq<Result<T, anyhow::Error>>,
)
    requires
        notes.len() > 0,
        outcomes.len() == notes.len(),
        annotated(None::<T>, cause, notes[0].message, notes[0].position, outcomes[0]),
        forall|k: int|
            1 <= k < notes.len() ==> annotated(
                None::<T>,
                frames(outcomes[k - 1]->Err_0),
                notes[k].message,
                notes[k].position,
                #[trigger] outcomes[k],
            ),
    ensures
        outcomes.last() is Err,
        frames(outcomes.last()->Err_0) == stacked(notes) + cause,
    decreases notes.len(),
{
    if notes.len() == 1 {
        assert(stacked(notes.drop_last()) =~= Seq::<Seq<char>>::empty());
        assert(frames(outcomes.last()->Err_0) =~= stacked(notes) + cause);
    } else {
        let earlier = notes.drop_last();
        let before = outcomes.drop_last();
        assert forall|k: int| 1 <= k < earlier.len() implies annotated(
            None::<T>,
            frames(before[k - 1]->Err_0),
            earlier[k].message,
            earlier[k].position,
            #[trigger] before[k],
        ) by {
            assert(before[k] == outcomes[k]);
        }
        lemma_calls_pile_up(cause, earlier, before);
        assert(before.last() == outcomes[outcomes.len() - 2]);
        assert(frames(outcomes.last()->Err_0) =~= stacked(notes) + cause);
    }
}

/// Marking a position is annotating with the position's marker: `dot` at a
/// position allows exactly the outcomes that `context` allows there for a
/// message that reads `` at `file:line:column` `` without the leading blank.
pub proof fn lemma_dot_is_context<T, C: Render>(
    payload: Option<T>,
    cause: Seq<Seq<char>>,
    context: C,
    position: Position,
    after: Result<T, anyhow::Error>,
)
    requires
        context.text() == marker(position),
    ensures
        annotated(payload, cause, marker(position), position, after) <==> annotated(
            payload,
            cause,
            context.text(),
            position,
            after,
        ),
{
}

} // verus!
