//! Input events, as the toolkit sees them: typed window events with
//! plain integer payloads, and declarative event subscriptions.

use vstd::prelude::*;

verus! {

/// A mouse button.
#[derive(Debug, Clone, Copy, PartialEq, Eq, Structural)]
pub enum MouseButton {
    Left,
    Right,
    Middle,
    Other(u8),
}

/// What happened to a button or key.
#[derive(Debug, Clone, Copy, PartialEq, Eq, Structural)]
pub enum Action {
    Press,
    Release,
    Repeat,
}

/// One window event. Cursor positions and framebuffer sizes are in
/// pixels.
#[derive(Debug, Clone, Copy, PartialEq, Eq, Structural)]
pub enum Event {
    CursorPos(i32, i32),
    MouseButton(MouseButton, Action),
    Key(i32, Action),
    Char(u32),
    FramebufferSize(i32, i32),
    Other,
}

/// The kind of an event, for declarative filtering.
#[derive(Debug, Clone, Copy, PartialEq, Eq, Structural)]
pub enum EventKind {
    CursorPos,
    MouseButton,
    Key,
    Char,
    FramebufferSize,
    Other,
}

/// The kind of `e`.
pub open spec fn spec_event_kind(e: Event) -> EventKind {
    match e {
        Event::CursorPos(_, _) => EventKind::CursorPos,
        Event::MouseButton(_, _) => EventKind::MouseButton,
        Event::Key(_, _) => EventKind::Key,
        Event::Char(_) => EventKind::Char,
        Event::FramebufferSize(_, _) => EventKind::FramebufferSize,
        Event::Other => EventKind::Other,
    }
}

/// The kind of `e`.
pub fn event_kind(e: Event) -> (r: EventKind)
    ensures
        r == spec_event_kind(e),
{
    match e {
        Event::CursorPos(_, _) => EventKind::CursorPos,
        Event::MouseButton(_, _) => EventKind::MouseButton,
        Event::Key(_, _) => EventKind::Key,
        Event::Char(_) => EventKind::Char,
        Event::FramebufferSize(_, _) => EventKind::FramebufferSize,
        Event::Other => EventKind::Other,
    }
}

/// A set of declarative event filters: each one maps every event of
/// one kind to an application message.
pub struct Subscriptions<M> {
    pub filters: Vec<(EventKind, M)>,
}

/// The index of the first filter that matches an event of kind `k`,
/// if any.
pub open spec fn first_match<M>(filters: Seq<(EventKind, M)>, k: EventKind) -> Option<M>
    decreases filters.len(),
{
    if filters.len() == 0 {
        Option::None
    } else if filters.first().0 == k {
        Option::Some(filters.first().1)
    } else {
        first_match(filters.drop_first(), k)
    }
}

impl<M: Copy> Subscriptions<M> {
    pub fn new(kind: EventKind, message: M) -> (r: Self)
        ensures
            r.filters@.len() == 1,
            r.filters@[0] == (kind, message),
    {
        let mut filters: Vec<(EventKind, M)> = Vec::new();
        filters.push((kind, message));
        Self { filters }
    }

    pub fn empty() -> (r: Self)
        ensures
            r.filters@ == Seq::<(EventKind, M)>::empty(),
    {
        Self { filters: Vec::new() }
    }

    /// The message of the first filter whose kind is the kind of
    /// `event`, if any filter matches.
    pub fn filter(&self, event: Event) -> (r: Option<M>)
        ensures
            r == first_match(self.filters@, spec_event_kind(event)),
    {
        let k = event_kind(event);
        let mut i: usize = 0;
        proof {
            assert(self.filters@.subrange(0, self.filters@.len() as int) =~= self.filters@);
        }
        while i < self.filters.len()
            invariant
                0 <= i <= self.filters@.len(),
                k == spec_event_kind(event),
                first_match(self.filters@, k) == first_match(
                    self.filters@.subrange(i as int, self.filters@.len() as int),
                    k,
                ),
            decreases self.filters@.len() - i,
        {
            let (kind, message) = self.filters[i];
            proof {
                assert(self.filters@.subrange(i as int, self.filters@.len() as int).first()
                    == self.filters@[i as int]);
                assert(self.filters@.subrange(i as int, self.filters@.len() as int).drop_first()
                    =~= self.filters@.subrange(i + 1 as int, self.filters@.len() as int));
            }
            if kind == k {
                return Some(message);
            }
            i = i + 1;
        }
        proof {
            assert(self.filters@.subrange(
                self.filters@.len() as int,
                self.filters@.len() as int,
            ) =~= Seq::<(EventKind, M)>::empty());
        }
        None
    }

    /// All the filters of `subscriptions`, in order.
    pub fn combine(subscriptions: Vec<Self>) -> (r: Self)
        ensures
            r.filters@ == subscriptions@.map_values(|s: Self| s.filters@).flatten(),
    {
        let mut filters: Vec<(EventKind, M)> = Vec::new();
        let mut i: usize = 0;
        proof {
            assert(subscriptions@.map_values(|s: Self| s.filters@).subrange(0, 0)
                =~= Seq::<Seq<(EventKind, M)>>::empty());
            assert(subscriptions@.map_values(|s: Self| s.filters@).subrange(0, 0).flatten()
                =~= Seq::<(EventKind, M)>::empty());
        }
        while i < subscriptions.len()
            invariant
                0 <= i <= subscriptions@.len(),
                filters@ == subscriptions@.map_values(|s: Self| s.filters@).subrange(
                    0,
                    i as int,
                ).flatten(),
            decreases subscriptions@.len() - i,
        {
            let sub = &subscriptions[i];
            let mut j: usize = 0;
            while j < sub.filters.len()
                invariant
                    0 <= i < subscriptions@.len(),
                    0 <= j <= sub.filters@.len(),
                    sub == &subscriptions@[i as int],
                    filters@ == subscriptions@.map_values(|s: Self| s.filters@).subrange(
                        0,
                        i as int,
                    ).flatten() + sub.filters@.subrange(0, j as int),
                decreases sub.filters@.len() - j,
            {
                filters.push(sub.filters[j]);
                proof {
                    assert(sub.filters@.subrange(0, j as int).push(sub.filters@[j as int])
                        =~= sub.filters@.subrange(0, j + 1 as int));
                }
                j = j + 1;
            }
            proof {
                let mapped = subscriptions@.map_values(|s: Self| s.filters@);
                assert(sub.filters@.subrange(0, sub.filters@.len() as int) =~= sub.filters@);
                mapped.subrange(0, i as int).lemma_flatten_push(mapped[i as int]);
                assert(mapped.subrange(0, i as int).push(mapped[i as int]) =~= mapped.subrange(
                    0,
                    i + 1 as int,
                ));
            }
            i = i + 1;
        }
        proof {
            let mapped = subscriptions@.map_values(|s: Self| s.filters@);
            assert(mapped.subrange(0, mapped.len() as int) =~= mapped);
        }
        Self { filters }
    }
}

impl<M: Copy> Default for Subscriptions<M> {
    fn default() -> (r: Self)
        ensures
            r.filters@ == Seq::<(EventKind, M)>::empty(),
    {
        Self::empty()
    }
}

} // verus!
