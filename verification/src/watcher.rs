//! Noticing that a repository changed underneath the app.

use vstd::prelude::*;

verus! {

/// The git directory that a watched path lies in.
#[derive(Debug, Clone, Copy, PartialEq, Eq, Structural)]
pub enum Dir {
    /// The worktree's own.
    Git,
    /// The one every worktree shares.
    Common,
}

/// A watched path: an entry of one of the two git directories.
#[derive(Debug, Clone, Copy)]
pub struct Watched {
    pub dir: Dir,
    pub name: &'static str,
}

/// How long the watcher leaves the paths alone between two looks, in
/// nanoseconds.
///
/// Long enough that the looks cost nothing, short enough that a commit made in
/// another window is picked up before the user wonders why it was not.
pub const POLL_INTERVAL: u128 = 1_000_000_000;

/// The paths a watcher looks at.
///
/// `HEAD` is there for checkout and commit, `index` for staging, and `refs` and
/// `packed-refs` for branches and tags. What is compared is the time of each of
/// the four entries itself: of `refs`, that of the directory, not of the files
/// in it.
pub fn watched() -> (paths: [Watched; 4])
    ensures
        paths@.len() == 4,
        paths@[0].dir == Dir::Git && paths@[0].name@ == "HEAD"@,
        paths@[1].dir == Dir::Git && paths@[1].name@ == "index"@,
        paths@[2].dir == Dir::Common && paths@[2].name@ == "refs"@,
        paths@[3].dir == Dir::Common && paths@[3].name@ == "packed-refs"@,
{
    [
        Watched { dir: Dir::Git, name: "HEAD" },
        Watched { dir: Dir::Git, name: "index" },
        Watched { dir: Dir::Common, name: "refs" },
        Watched { dir: Dir::Common, name: "packed-refs" },
    ]
}

/// When each watched path was last changed, in nanoseconds since some fixed
/// moment. A path that does not exist stamps as `None`, so its appearance or
/// disappearance counts as a change (`packed-refs` and `index` both come and go
/// in an ordinary repository).
pub type Stamps = [Option<i128>; 4];

/// Notices that something changed the repository from outside the app.
///
/// It compares the stamps of four paths rather than running `git status`,
/// because it runs on a timer: `git status` on a large repository is hundreds
/// of milliseconds and a process spawn, and doing that once a second forever to
/// answer "did anything happen" is the wrong trade.
///
/// It does **not** watch the worktree. Editing a file changes `git status`
/// without touching `.git`, so an edit made in another window is picked up on
/// the next refresh rather than immediately. Watching a whole worktree means a
/// watch per directory and a rebuild every time a build writes to `target/`,
/// which is a much worse trade than being one keystroke stale.
///
/// Reading the clock and the stamps is the caller's. Times are in nanoseconds
/// on one monotonic clock.
#[derive(Debug)]
pub struct Watcher {
    last: Stamps,
    checked: u128,
}

/// What a [`Watcher`] stands for.
pub struct Watch {
    /// The stamps it last saw.
    pub last: Seq<Option<i128>>,
    /// When it saw them.
    pub checked: int,
}

impl View for Watcher {
    type V = Watch;

    closed spec fn view(&self) -> Watch {
        Watch { last: self.last@, checked: self.checked as int }
    }
}

/// Whether the paths have been left alone long enough.
pub open spec fn look_due(watch: Watch, now: int) -> bool {
    now - watch.checked >= POLL_INTERVAL
}

/// The watch once it has been asked at `now`, with the stamps of that moment.
pub open spec fn asked(watch: Watch, now: int, stamps: Seq<Option<i128>>) -> Watch {
    if look_due(watch, now) {
        Watch { last: stamps, checked: now }
    } else {
        watch
    }
}

/// Whether the watch, asked at `now`, says that something changed.
pub open spec fn change_seen(watch: Watch, now: int, stamps: Seq<Option<i128>>) -> bool {
    look_due(watch, now) && stamps != watch.last
}

/// Whether two lists of stamps are the same.
fn same_stamps(a: &Stamps, b: &Stamps) -> (same: bool)
    ensures
        same == (a@ == b@),
{
    let mut i: usize = 0;
    while i < 4
        invariant
            i <= 4,
            forall|j: int| 0 <= j < i ==> a@[j] == b@[j],
        decreases 4 - i,
    {
        if a[i] != b[i] {
            return false;
        }
        i = i + 1;
    }
    assert(a@ =~= b@);
    true
}

impl Watcher {
    /// Start watching the git directories of an open repository, from the
    /// stamps that the paths of [`watched`] have at `now`.
    pub fn start(stamps: Stamps, now: u128) -> (watcher: Watcher)
        ensures
            watcher@ == (Watch { last: stamps@, checked: now as int }),
    {
        Watcher { last: stamps, checked: now }
    }

    /// Whether it is time to look at the paths again. When it is not,
    /// [`Watcher::take_changed`] has no use for their stamps.
    pub fn due(&self, now: u128) -> (due: bool)
        ensures
            due == look_due(self@, now as int),
    {
        now >= self.checked && now - self.checked >= POLL_INTERVAL
    }

    /// Whether something changed since the last time this said so.
    pub fn take_changed(&mut self, now: u128, stamps: Stamps) -> (changed: bool)
        ensures
            final(self)@ == asked(old(self)@, now as int, stamps@),
            changed == change_seen(old(self)@, now as int, stamps@),
    {
        if !self.due(now) {
            return false;
        }
        self.checked = now;
        if same_stamps(&self.last, &stamps) {
            return false;
        }
        self.last = stamps;
        true
    }
}

// ---------------------------------------------------------------------------
// Laws
// ---------------------------------------------------------------------------

/// A change is reported once: asked again while the stamps stay as they were
/// when it was reported, at whatever time, the watch says that nothing changed.
pub proof fn law_change_reported_once(
    watch: Watch,
    now: int,
    stamps: Seq<Option<i128>>,
    later: int,
)
    requires
        change_seen(watch, now, stamps),
    ensures
        !change_seen(asked(watch, now, stamps), later, stamps),
{
}

/// A change between two looks is noticed at the second, when it is due.
pub proof fn law_change_noticed(
    watch: Watch,
    now: int,
    stamps: Seq<Option<i128>>,
    later: int,
    changed: Seq<Option<i128>>,
)
    requires
        look_due(watch, now),
        later - now >= POLL_INTERVAL,
        changed != stamps,
    ensures
        change_seen(asked(watch, now, stamps), later, changed),
{
}

/// The paths are looked at no more than once per [`POLL_INTERVAL`]: within it
/// of a look the watch says nothing and stays as it is, whatever the stamps.
pub proof fn law_one_look_per_interval(
    watch: Watch,
    now: int,
    stamps: Seq<Option<i128>>,
    later: int,
    others: Seq<Option<i128>>,
)
    requires
        look_due(watch, now),
        later - now < POLL_INTERVAL,
    ensures
        !change_seen(asked(watch, now, stamps), later, others),
        asked(asked(watch, now, stamps), later, others) == asked(watch, now, stamps),
{
}

/// A look is due once a full second has passed since the last one, and stays
/// due until it is taken.
pub proof fn law_look_becomes_due(watch: Watch, now: int)
    ensures
        now >= watch.checked + 1_000_000_000 ==> look_due(watch, now),
        now < watch.checked + 1_000_000_000 ==> !look_due(watch, now),
{
}

/// A watch notices a change as soon as it may look: whatever it last saw and
/// whenever that was, stamps that differ a full second later are a change.
pub proof fn law_change_noticed_from_any_state(watch: Watch, now: int, stamps: Seq<Option<i128>>)
    requires
        now >= watch.checked + 1_000_000_000,
        stamps != watch.last,
    ensures
        change_seen(watch, now, stamps),
{
}

/// A watcher that was just started notices the first change too.
pub proof fn law_change_noticed_after_start(
    start: int,
    stamps: Seq<Option<i128>>,
    later: int,
    changed: Seq<Option<i128>>,
)
    requires
        later - start >= POLL_INTERVAL,
        changed != stamps,
    ensures
        change_seen(Watch { last: stamps, checked: start }, later, changed),
{
}

/// A watch never makes a change up: stamps that are those it last saw are none,
/// at whatever time, and neither is anything within a second of the last look.
pub proof fn law_no_false_alarm(watch: Watch, now: int, stamps: Seq<Option<i128>>)
    ensures
        !change_seen(watch, now, watch.last),
        now < watch.checked + 1_000_000_000 ==> !change_seen(watch, now, stamps),
{
}

/// A look that is due is remembered, with what it saw and when, whether it
/// found a change or not. Asking before it is due leaves the watch as it is.
pub proof fn law_look_remembered(watch: Watch, now: int, stamps: Seq<Option<i128>>)
    ensures
        now >= watch.checked + 1_000_000_000 ==> {
            &&& asked(watch, now, stamps).last == stamps
            &&& asked(watch, now, stamps).checked == now
        },
        now < watch.checked + 1_000_000_000 ==> asked(watch, now, stamps) == watch,
{
}

} // verus!
