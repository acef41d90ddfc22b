//! Toast notifications for transient user feedback: auto-dismissal after a
//! configurable duration, and coalescing of repeated messages to prevent
//! notification spam. Timestamps and durations are plain milliseconds.

use vstd::prelude::*;
use crate::strutil::str_eq;

verus! {

/// The kind of a toast; it determines styling and default duration.
#[derive(Debug, Clone, Copy, PartialEq, Eq, Structural)]
pub enum ToastType {
    /// Informational message.
    Info,
    /// Success or completion message.
    Success,
    /// Warning that does not block operation.
    Warning,
    /// Error that needs attention.
    Error,
}

impl ToastType {
    /// The icon prefix of this kind.
    pub fn icon(self) -> (r: &'static str)
        ensures
            (match self {
                ToastType::Info => r@ == "i"@,
                ToastType::Success => r@ == "*"@,
                ToastType::Warning => r@ == "!"@,
                ToastType::Error => r@ == "x"@,
            }),
    {
        match self {
            ToastType::Info => "i",
            ToastType::Success => "*",
            ToastType::Warning => "!",
            ToastType::Error => "x",
        }
    }

    /// The default lifetime of this kind, in milliseconds; errors stay the
    /// longest.
    pub open spec fn spec_default_duration(self) -> u64 {
        match self {
            ToastType::Info => 3000,
            ToastType::Success => 2000,
            ToastType::Warning => 4000,
            ToastType::Error => 6000,
        }
    }

    /// The default lifetime of this kind, in milliseconds.
    #[verifier::when_used_as_spec(spec_default_duration)]
    pub fn default_duration(self) -> (r: u64)
        ensures
            r == self.spec_default_duration(),
    {
        match self {
            ToastType::Info => 3000,
            ToastType::Success => 2000,
            ToastType::Warning => 4000,
            ToastType::Error => 6000,
        }
    }

    /// The kind's tag, used to build coalescing identifiers.
    pub open spec fn spec_tag(self) -> Seq<char> {
        match self {
            ToastType::Info => "Info"@,
            ToastType::Success => "Success"@,
            ToastType::Warning => "Warning"@,
            ToastType::Error => "Error"@,
        }
    }

    /// The kind's tag as a string.
    pub fn tag(self) -> (r: &'static str)
        ensures
            r@ == self.spec_tag(),
    {
        match self {
            ToastType::Info => "Info",
            ToastType::Success => "Success",
            ToastType::Warning => "Warning",
            ToastType::Error => "Error",
        }
    }
}

/// Where toasts appear on screen.
#[derive(Debug, Clone, Copy, PartialEq, Eq, Structural)]
pub enum ToastPosition {
    /// Top-right corner (the default).
    TopRight,
    /// Top-left corner.
    TopLeft,
    /// Bottom-right corner.
    BottomRight,
    /// Bottom-left corner.
    BottomLeft,
    /// Top-center.
    TopCenter,
    /// Bottom-center.
    BottomCenter,
}

impl Default for ToastPosition {
    /// Toasts appear top-right unless positioned otherwise.
    fn default() -> (r: Self)
        ensures
            r == ToastPosition::TopRight,
    {
        ToastPosition::TopRight
    }
}

/// A single toast notification.
#[derive(Debug)]
pub struct Toast {
    /// Identifier used for coalescing; by default the kind and message.
    pub id: String,
    /// The message to display.
    pub message: String,
    /// The kind, which determines styling and default duration.
    pub toast_type: ToastType,
    /// When the toast was created, in epoch milliseconds.
    pub created_at: u64,
    /// How long until auto-dismissal, in milliseconds.
    pub duration: u64,
    /// How many messages were coalesced into this toast.
    pub count: usize,
}

/// Whether two toasts carry the same data.
pub open spec fn toast_like(a: Toast, b: Toast) -> bool {
    &&& a.id@ == b.id@
    &&& a.message@ == b.message@
    &&& a.toast_type == b.toast_type
    &&& a.created_at == b.created_at
    &&& a.duration == b.duration
    &&& a.count == b.count
}

/// A copy of the toast.
pub fn clone_toast(t: &Toast) -> (r: Toast)
    ensures
        toast_like(r, *t),
{
    Toast {
        id: t.id.clone(),
        message: t.message.clone(),
        toast_type: t.toast_type,
        created_at: t.created_at,
        duration: t.duration,
        count: t.count,
    }
}

/// A toast is expired once its lifetime has elapsed (a clock reading before
/// the creation time counts as no elapsed time).
pub open spec fn spec_is_expired(t: Toast, now_ms: u64) -> bool {
    (if now_ms >= t.created_at {
        now_ms - t.created_at
    } else {
        0
    }) >= t.duration
}

impl Toast {
    /// A new toast with the kind's default duration and a coalescing
    /// identifier built from the kind and the message.
    pub fn new(message: String, toast_type: ToastType, now_ms: u64) -> (t: Toast)
        ensures
            t.id@ == toast_type.spec_tag() + ":"@ + message@,
            t.message@ == message@,
            t.toast_type == toast_type,
            t.created_at == now_ms,
            t.duration == toast_type.spec_default_duration(),
            t.count == 1,
    {
        let id = String::from_str(toast_type.tag()).concat(":").concat(message.as_str());
        Toast {
            id,
            message,
            toast_type,
            created_at: now_ms,
            duration: toast_type.default_duration(),
            count: 1,
        }
    }

    /// The same toast with a custom duration.
    pub fn with_duration(self, duration: u64) -> (t: Toast)
        ensures
            t == (Toast { duration, ..self }),
    {
        Toast { duration, ..self }
    }

    /// The same toast with a custom coalescing identifier.
    pub fn with_id(self, id: String) -> (t: Toast)
        ensures
            t == (Toast { id, ..self }),
    {
        Toast { id, ..self }
    }

    /// Whether this toast has outlived its duration at the given time.
    pub fn is_expired(&self, now_ms: u64) -> (r: bool)
        ensures
            r == spec_is_expired(*self, now_ms),
    {
        let elapsed = if now_ms >= self.created_at {
            now_ms - self.created_at
        } else {
            0
        };
        elapsed >= self.duration
    }

    /// An informational toast.
    pub fn info(message: String, now_ms: u64) -> (t: Toast)
        ensures
            t.id@ == ToastType::Info.spec_tag() + ":"@ + message@,
            t.message@ == message@ && t.toast_type == ToastType::Info && t.created_at == now_ms
                && t.duration == 3000 && t.count == 1,
    {
        Toast::new(message, ToastType::Info, now_ms)
    }

    /// A success toast.
    pub fn success(message: String, now_ms: u64) -> (t: Toast)
        ensures
            t.id@ == ToastType::Success.spec_tag() + ":"@ + message@,
            t.message@ == message@ && t.toast_type == ToastType::Success && t.created_at == now_ms
                && t.duration == 2000 && t.count == 1,
    {
        Toast::new(message, ToastType::Success, now_ms)
    }

    /// A warning toast.
    pub fn warning(message: String, now_ms: u64) -> (t: Toast)
        ensures
            t.id@ == ToastType::Warning.spec_tag() + ":"@ + message@,
            t.message@ == message@ && t.toast_type == ToastType::Warning && t.created_at == now_ms
                && t.duration == 4000 && t.count == 1,
    {
        Toast::new(message, ToastType::Warning, now_ms)
    }

    /// An error toast.
    pub fn error(message: String, now_ms: u64) -> (t: Toast)
        ensures
            t.id@ == ToastType::Error.spec_tag() + ":"@ + message@,
            t.message@ == message@ && t.toast_type == ToastType::Error && t.created_at == now_ms
                && t.duration == 6000 && t.count == 1,
    {
        Toast::new(message, ToastType::Error, now_ms)
    }
}

/// Manages the active toasts, newest first.
#[derive(Debug)]
pub struct ToastManager {
    toasts: Vec<Toast>,
    max_visible: usize,
    position: ToastPosition,
    coalesce: bool,
}

/// The retention cap: twice the visible count, saturating.
pub open spec fn spec_retention_cap(max_visible: usize) -> int {
    if 2 * max_visible <= usize::MAX {
        2 * max_visible
    } else {
        usize::MAX as int
    }
}

/// The position of the first toast with this identifier, if any.
pub open spec fn find_toast(ts: Seq<Toast>, id: Seq<char>) -> Option<int>
    decreases ts.len(),
{
    if ts.len() == 0 {
        Option::None
    } else if ts[0].id@ == id {
        Option::Some(0)
    } else {
        match find_toast(ts.drop_first(), id) {
            Option::Some(j) => Option::Some(j + 1),
            Option::None => Option::None,
        }
    }
}

impl ToastManager {
    /// The active toasts, newest first.
    pub closed spec fn toasts_seq(&self) -> Seq<Toast> {
        self.toasts@
    }

    /// The configured maximum of visible toasts.
    pub closed spec fn spec_max_visible(&self) -> usize {
        self.max_visible
    }

    /// The configured position.
    pub closed spec fn spec_position(&self) -> ToastPosition {
        self.position
    }

    /// Whether repeated messages coalesce.
    pub closed spec fn spec_coalesce(&self) -> bool {
        self.coalesce
    }

    /// An empty manager: five visible toasts, top-right, coalescing on.
    pub fn new() -> (r: ToastManager)
        ensures
            r.toasts_seq().len() == 0,
            r.spec_max_visible() == 5,
            r.spec_position() == ToastPosition::TopRight,
            r.spec_coalesce(),
    {
        ToastManager {
            toasts: Vec::new(),
            max_visible: 5,
            position: ToastPosition::TopRight,
            coalesce: true,
        }
    }

    /// The same manager with another visible maximum.
    pub fn with_max_visible(self, max: usize) -> (r: ToastManager)
        ensures
            r.toasts_seq() == self.toasts_seq(),
            r.spec_max_visible() == max,
            r.spec_position() == self.spec_position(),
            r.spec_coalesce() == self.spec_coalesce(),
    {
        ToastManager { max_visible: max, ..self }
    }

    /// The same manager positioned elsewhere.
    pub fn with_position(self, position: ToastPosition) -> (r: ToastManager)
        ensures
            r.toasts_seq() == self.toasts_seq(),
            r.spec_max_visible() == self.spec_max_visible(),
            r.spec_position() == position,
            r.spec_coalesce() == self.spec_coalesce(),
    {
        ToastManager { position, ..self }
    }

    /// The same manager with coalescing switched on or off.
    pub fn with_coalesce(self, coalesce: bool) -> (r: ToastManager)
        ensures
            r.toasts_seq() == self.toasts_seq(),
            r.spec_max_visible() == self.spec_max_visible(),
            r.spec_position() == self.spec_position(),
            r.spec_coalesce() == coalesce,
    {
        ToastManager { coalesce, ..self }
    }

    /// Adds a toast. With coalescing on and an active toast of the same
    /// identifier, that toast's counter grows (saturating) and its clock
    /// restarts at the new toast's creation time; otherwise the toast goes
    /// to the front and the oldest entries beyond twice the visible maximum
    /// are dropped.
    pub fn push(&mut self, toast: Toast)
        ensures
            (match find_toast(old(self).toasts_seq(), toast.id@) {
                Option::Some(j) => old(self).spec_coalesce() ==> {
                    let prev = old(self).toasts_seq()[j];
                    let bumped = Toast {
                        count: if prev.count < usize::MAX {
                            (prev.count + 1) as usize
                        } else {
                            prev.count
                        },
                        created_at: toast.created_at,
                        ..prev
                    };
                    final(self).toasts_seq() == old(self).toasts_seq().update(j, bumped)
                },
                Option::None => true,
            }),
            (find_toast(old(self).toasts_seq(), toast.id@) is None || !old(self).spec_coalesce())
                ==> {
                let grown = seq![toast] + old(self).toasts_seq();
                let cap = spec_retention_cap(old(self).spec_max_visible());
                final(self).toasts_seq() == (if grown.len() <= cap {
                    grown
                } else {
                    grown.take(cap as int)
                })
            },
            final(self).spec_max_visible() == old(self).spec_max_visible(),
            final(self).spec_position() == old(self).spec_position(),
            final(self).spec_coalesce() == old(self).spec_coalesce(),
    {
        if self.coalesce {
            let n = self.toasts.len();
            let mut i: usize = 0;
            while i < n
                invariant
                    i <= n,
                    n == self.toasts@.len(),
                    self.toasts@ == old(self).toasts_seq(),
                    self.max_visible == old(self).spec_max_visible(),
                    self.position == old(self).spec_position(),
                    self.coalesce == old(self).spec_coalesce(),
                    old(self).spec_coalesce(),
                    forall|k: int| 0 <= k < i ==> (#[trigger] self.toasts@[k]).id@ != toast.id@,
                decreases n - i,
            {
                if str_eq(self.toasts[i].id.as_str(), toast.id.as_str()) {
                    proof {
                        lemma_find_toast_at(self.toasts@, toast.id@, i as int);
                    }
                    let ghost prev = self.toasts@[i as int];
                    let prev_count = self.toasts[i].count;
                    let new_count = if prev_count < usize::MAX {
                        prev_count + 1
                    } else {
                        prev_count
                    };
                    self.toasts[i].count = new_count;
                    self.toasts[i].created_at = toast.created_at;
                    proof {
                        let bumped = Toast {
                            count: if prev.count < usize::MAX {
                                (prev.count + 1) as usize
                            } else {
                                prev.count
                            },
                            created_at: toast.created_at,
                            ..prev
                        };
                        assert(self.toasts@[i as int] == bumped);
                        assert(self.toasts@ =~= old(self).toasts_seq().update(i as int, bumped));
                    }
                    return ;
                }
                i = i + 1;
            }
            proof {
                lemma_find_toast_none(self.toasts@, toast.id@);
            }
        }
        self.toasts.insert(0, toast);
        proof {
            assert(self.toasts@ =~= seq![toast] + old(self).toasts_seq());
        }
        let cap = if self.max_visible <= usize::MAX / 2 {
            2 * self.max_visible
        } else {
            usize::MAX
        };
        if self.toasts.len() > cap {
            let ghost grown = self.toasts@;
            self.toasts.truncate(cap);
            proof {
                assert(self.toasts@ =~= grown.take(cap as int));
            }
        }
    }

    /// Drops every expired toast, keeping the rest in order.
    pub fn tick(&mut self, now_ms: u64)
        ensures
            final(self).toasts_seq() == old(self).toasts_seq().filter(
                |t: Toast| !spec_is_expired(t, now_ms),
            ),
            final(self).spec_max_visible() == old(self).spec_max_visible(),
            final(self).spec_position() == old(self).spec_position(),
            final(self).spec_coalesce() == old(self).spec_coalesce(),
    {
        let ghost orig = old(self).toasts_seq();
        let mut kept: Vec<Toast> = Vec::new();
        let ghost mut done: int = 0;
        proof {
            reveal(Seq::filter);
            assert(orig.take(0) =~= Seq::<Toast>::empty());
        }
        while self.toasts.len() > 0
            invariant
                0 <= done <= orig.len(),
                self.toasts@ =~= orig.skip(done),
                self.max_visible == old(self).spec_max_visible(),
                self.position == old(self).spec_position(),
                self.coalesce == old(self).spec_coalesce(),
                kept@ == orig.take(done).filter(|t: Toast| !spec_is_expired(t, now_ms)),
            decreases self.toasts@.len(),
        {
            let t = self.toasts.remove(0);
            proof {
                reveal(Seq::filter);
                assert(t == orig[done]);
                assert(orig.take(done + 1).drop_last() =~= orig.take(done));
                assert(orig.take(done + 1).last() == orig[done]);
            }
            if !t.is_expired(now_ms) {
                kept.push(t);
            }
            proof {
                done = done + 1;
                assert(self.toasts@ =~= orig.skip(done));
            }
        }
        proof {
            assert(orig.take(done) =~= orig);
        }
        self.toasts = kept;
    }

    /// Removes every toast.
    pub fn clear(&mut self)
        ensures
            final(self).toasts_seq().len() == 0,
            final(self).spec_max_visible() == old(self).spec_max_visible(),
            final(self).spec_position() == old(self).spec_position(),
            final(self).spec_coalesce() == old(self).spec_coalesce(),
    {
        self.toasts.clear();
    }

    /// Dismisses the oldest toast (the last one), if any.
    pub fn dismiss_oldest(&mut self)
        ensures
            old(self).toasts_seq().len() == 0 ==> final(self).toasts_seq() == old(
                self,
            ).toasts_seq(),
            old(self).toasts_seq().len() > 0 ==> final(self).toasts_seq() == old(
                self,
            ).toasts_seq().drop_last(),
            final(self).spec_max_visible() == old(self).spec_max_visible(),
            final(self).spec_position() == old(self).spec_position(),
            final(self).spec_coalesce() == old(self).spec_coalesce(),
    {
        if self.toasts.len() > 0 {
            self.toasts.pop();
            proof {
                assert(self.toasts@ =~= old(self).toasts_seq().drop_last());
            }
        }
    }

    /// Dismisses every toast of the given kind.
    pub fn dismiss_type(&mut self, toast_type: ToastType)
        ensures
            final(self).toasts_seq() == old(self).toasts_seq().filter(
                |t: Toast| t.toast_type != toast_type,
            ),
            final(self).spec_max_visible() == old(self).spec_max_visible(),
            final(self).spec_position() == old(self).spec_position(),
            final(self).spec_coalesce() == old(self).spec_coalesce(),
    {
        let ghost orig = old(self).toasts_seq();
        let mut kept: Vec<Toast> = Vec::new();
        let ghost mut done: int = 0;
        proof {
            reveal(Seq::filter);
            assert(orig.take(0) =~= Seq::<Toast>::empty());
        }
        while self.toasts.len() > 0
            invariant
                0 <= done <= orig.len(),
                self.toasts@ =~= orig.skip(done),
                self.max_visible == old(self).spec_max_visible(),
                self.position == old(self).spec_position(),
                self.coalesce == old(self).spec_coalesce(),
                kept@ == orig.take(done).filter(|t: Toast| t.toast_type != toast_type),
            decreases self.toasts@.len(),
        {
            let t = self.toasts.remove(0);
            proof {
                reveal(Seq::filter);
                assert(t == orig[done]);
                assert(orig.take(done + 1).drop_last() =~= orig.take(done));
                assert(orig.take(done + 1).last() == orig[done]);
            }
            let keep = match (t.toast_type, toast_type) {
                (ToastType::Info, ToastType::Info) => false,
                (ToastType::Success, ToastType::Success) => false,
                (ToastType::Warning, ToastType::Warning) => false,
                (ToastType::Error, ToastType::Error) => false,
                _ => true,
            };
            if keep {
                kept.push(t);
            }
            proof {
                done = done + 1;
                assert(self.toasts@ =~= orig.skip(done));
            }
        }
        proof {
            assert(orig.take(done) =~= orig);
        }
        self.toasts = kept;
    }

    /// The visible toasts: copies of the newest ones, up to the configured
    /// maximum.
    pub fn visible(&self) -> (r: Vec<Toast>)
        ensures
            r@.len() == (if self.toasts_seq().len() <= self.spec_max_visible() {
                self.toasts_seq().len() as int
            } else {
                self.spec_max_visible() as int
            }),
            forall|k: int| 0 <= k < r@.len() ==> toast_like(#[trigger] r@[k], self.toasts_seq()[k]),
    {
        let m = if self.toasts.len() <= self.max_visible {
            self.toasts.len()
        } else {
            self.max_visible
        };
        let mut r: Vec<Toast> = Vec::new();
        let mut i: usize = 0;
        while i < m
            invariant
                i <= m,
                m <= self.toasts@.len(),
                r@.len() == i,
                forall|k: int|
                    0 <= k < i ==> toast_like(#[trigger] r@[k], self.toasts_seq()[k]),
            decreases m - i,
        {
            r.push(clone_toast(&self.toasts[i]));
            i = i + 1;
        }
        r
    }

    /// Whether no toast is active.
    pub fn is_empty(&self) -> (r: bool)
        ensures
            r == (self.toasts_seq().len() == 0),
    {
        self.toasts.len() == 0
    }

    /// How many toasts are active.
    pub fn len(&self) -> (r: usize)
        ensures
            r == self.toasts_seq().len(),
    {
        self.toasts.len()
    }

    /// The configured position.
    pub fn position(&self) -> (r: ToastPosition)
        ensures
            r == self.spec_position(),
    {
        self.position
    }
}

proof fn lemma_find_toast_at(ts: Seq<Toast>, id: Seq<char>, j: int)
    requires
        0 <= j < ts.len(),
        ts[j].id@ == id,
        forall|k: int| 0 <= k < j ==> (#[trigger] ts[k]).id@ != id,
    ensures
        find_toast(ts, id) == Option::Some(j),
    decreases j,
{
    if j > 0 {
        lemma_find_toast_at(ts.drop_first(), id, j - 1);
    }
}

proof fn lemma_find_toast_none(ts: Seq<Toast>, id: Seq<char>)
    requires
        forall|k: int| 0 <= k < ts.len() ==> (#[trigger] ts[k]).id@ != id,
    ensures
        find_toast(ts, id) is None,
    decreases ts.len(),
{
    if ts.len() > 0 {
        lemma_find_toast_none(ts.drop_first(), id);
    }
}

} // verus!
