//! A context value together with the place where it was attached.

use crate::location::{lemma_position_text_injective, position_text, Location, Position};
use crate::render::Render;
use vstd::prelude::*;
use vstd::string::*;

verus! {

/// A context value and the source position of the call that attached it.
#[derive(Clone, Debug)]
pub struct WithLocation<E> {
    /// The context value, exactly as the caller gave it.
    pub error: E,
    /// Where the annotating call stands.
    pub location: Location,
}

/// The text of a frame: the message, then `` at `file:line:column` ``.
pub open spec fn framed(message: Seq<char>, position: Position) -> Seq<char> {
    message + seq![' ', 'a', 't', ' ', '`'] + position_text(position) + seq!['`']
}

/// The message of a frame that records a position and nothing else:
/// `` at `file:line:column` `` without the leading blank.
pub open spec fn marker(position: Position) -> Seq<char> {
    seq!['a', 't', ' ', '`'] + position_text(position) + seq!['`']
}

impl<E: Render> Render for WithLocation<E> {
    open spec fn text(&self) -> Seq<char> {
        framed(self.error.text(), self.location@)
    }

    fn render(&self) -> (s: String) {
        let mut s = self.error.render();
        let place = self.location.render();
        proof {
            reveal_strlit(" at `");
            reveal_strlit("`");
        }
        s.append(" at `");
        s.append(place.as_str());
        s.append("`");
        s
    }
}

impl<E> AsRef<E> for WithLocation<E> {
    /// The context value, for reading.
    fn as_ref(&self) -> (r: &E)
        ensures
            *r == self.error,
    {
        &self.error
    }
}

impl<E> core::ops::Deref for WithLocation<E> {
    type Target = E;

    /// The context value, for reading: a `WithLocation<E>` can be read
    /// wherever an `E` can.
    fn deref(&self) -> (r: &E)
        ensures
            *r == self.error,
    {
        &self.error
    }
}

/// Writes the message of a frame that records `location` alone.
pub fn marker_string(location: Location) -> (s: String)
    ensures
        s@ == marker(location@),
{
    let place = location.render();
    proof {
        reveal_strlit("at `");
        reveal_strlit("`");
    }
    let mut s = String::from_str("at `");
    s.append(place.as_str());
    s.append("`");
    s
}

/// One message attached at two different positions gives two different
/// frame texts.
pub proof fn lemma_framed_tells_positions_apart(message: Seq<char>, p: Position, q: Position)
    requires
        p != q,
    ensures
        framed(message, p) != framed(message, q),
{
    if framed(message, p) == framed(message, q) {
        let lead = message + seq![' ', 'a', 't', ' ', '`'];
        let a = framed(message, p);
        let b = framed(message, q);
        assert(a.len() == lead.len() + position_text(p).len() + 1);
        assert(b.len() == lead.len() + position_text(q).len() + 1);
        assert forall|i: int| 0 <= i < position_text(p).len() implies position_text(p)[i]
            == position_text(q)[i] by {
            assert(a[lead.len() + i] == position_text(p)[i]);
            assert(b[lead.len() + i] == position_text(q)[i]);
        }
        assert(position_text(p) =~= position_text(q));
        lemma_position_text_injective(p, q);
    }
}

/// A frame that marks a position alone reads the position twice: once as
/// its message and once as the place of the call.
pub proof fn lemma_marked_frame_text(p: Position)
    ensures
        framed(marker(p), p) == seq!['a', 't', ' ', '`'] + position_text(p) + seq![
            '`',
            ' ',
            'a',
            't',
            ' ',
            '`',
        ] + position_text(p) + seq!['`'],
{
    assert(framed(marker(p), p) =~= seq!['a', 't', ' ', '`'] + position_text(p) + seq![
        '`',
        ' ',
        'a',
        't',
        ' ',
        '`',
    ] + position_text(p) + seq!['`']);
}

} // verus!
