use vstd::prelude::*;

use super::terminal::{sat_sub, Size};

verus! {

/// How long a message stays on screen, in nanoseconds: five seconds.
pub const DEFAULT_DURATION_NS: u64 = 5_000_000_000u64;

/// What the bar shows once a message has expired.
pub const HELP_MESSAGE: &'static str = "HELP: Ctrl-S = save | Ctrl-Q = quit | Ctrl-F = search";

/// A message and when it was posted, in nanoseconds of the editor's clock.
struct Message {
    text: String,
    time: u64,
}

impl Default for Message {
    fn default() -> (message: Self) {
        Self { text: String::new(), time: 0 }
    }
}

impl Message {
    /// Whether more than five seconds passed between the message and `now`.
    fn is_expired(&self, now: u64) -> (expired: bool)
        ensures
            expired == (sat_sub(now as int, self.time as int) > DEFAULT_DURATION_NS),
    {
        now.saturating_sub(self.time) > DEFAULT_DURATION_NS
    }
}

/// The bar at the bottom of the screen that shows messages to the user.
pub struct MessageBar {
    current_message: Message,
    needs_redraw: bool,
    cleared: bool,
}

impl Default for MessageBar {
    fn default() -> (bar: Self)
        ensures
            bar.message() == Seq::<char>::empty(),
            bar.posted_at() == 0,
            !bar.redraw(),
            !bar.is_cleared(),
    {
        MessageBar {
            current_message: Message { text: String::new(), time: 0 },
            needs_redraw: false,
            cleared: false,
        }
    }
}

impl MessageBar {
    /// The current message.
    pub closed spec fn message(&self) -> Seq<char> {
        self.current_message.text@
    }

    /// When the current message was posted.
    pub closed spec fn posted_at(&self) -> u64 {
        self.current_message.time
    }

    /// Whether the bar must be drawn again.
    pub closed spec fn redraw(&self) -> bool {
        self.needs_redraw
    }

    /// Whether the bar was cleared.
    pub closed spec fn is_cleared(&self) -> bool {
        self.cleared
    }

    /// Whether the current message expired at `now`.
    pub open spec fn expired_at(&self, now: u64) -> bool {
        sat_sub(now as int, self.posted_at() as int) > DEFAULT_DURATION_NS
    }

    /// Posts `new_message` at time `now` and marks the bar for drawing.
    pub fn update_message(&mut self, new_message: String, now: u64)
        ensures
            final(self).message() == new_message@,
            final(self).posted_at() == now,
            !final(self).is_cleared(),
            final(self).redraw(),
    {
        self.current_message = Message { text: new_message, time: now };
        self.cleared = false;
        self.mark_redraw(true);
    }

    /// Takes a new size and marks the bar for drawing.
    pub fn resize(&mut self, size: Size)
        ensures
            final(self).redraw(),
            final(self).message() == old(self).message(),
            final(self).posted_at() == old(self).posted_at(),
            final(self).is_cleared() == old(self).is_cleared(),
    {
        self.set_size(size);
        self.mark_redraw(true);
    }

    /// Marks whether the bar must be drawn again.
    pub fn mark_redraw(&mut self, value: bool)
        ensures
            final(self).redraw() == value,
            final(self).message() == old(self).message(),
            final(self).posted_at() == old(self).posted_at(),
            final(self).is_cleared() == old(self).is_cleared(),
    {
        self.needs_redraw = value;
    }

    /// Whether the bar must be drawn at `now`: when it was marked so, or when
    /// its message has expired.
    pub fn needs_redraw(&self, now: u64) -> (r: bool)
        ensures
            r == (self.expired_at(now) || self.redraw()),
    {
        self.current_message.is_expired(now) || self.needs_redraw
    }

    /// The bar takes the size it is drawn in; nothing to remember.
    pub fn set_size(&mut self, _size: Size)
        ensures
            *final(self) == *old(self),
    {
    }

    /// The text to draw at `now`: the message, or the help once it has
    /// expired (and then the bar is no longer cleared).
    pub fn message_to_draw(&mut self, now: u64) -> (text: String)
        ensures
            text@ == (if old(self).expired_at(now) {
                HELP_MESSAGE@
            } else {
                old(self).message()
            }),
            final(self).is_cleared() == (old(self).is_cleared() && !old(self).expired_at(now)),
            final(self).message() == old(self).message(),
            final(self).posted_at() == old(self).posted_at(),
            final(self).redraw() == old(self).redraw(),
    {
        if self.current_message.is_expired(now) {
            self.cleared = false;
        }
        if self.current_message.is_expired(now) {
            HELP_MESSAGE.to_owned()
        } else {
            self.current_message.text.clone()
        }
    }
}

} // verus!
