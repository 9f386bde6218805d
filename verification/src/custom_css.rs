//! "Edit in your text editor" for custom CSS: the size limit, which watcher
//! is running, and when a save on disk is passed on to the page.

use vstd::prelude::*;

verus! {

/// The bound on the stylesheet file, as on the page: 8 MiB.
pub const MAX_FILE_BYTES: u64 = 8388608;

/// Why a stylesheet is refused.
#[derive(Debug, PartialEq, Eq)]
pub enum CssError {
    /// The stylesheet has this many bytes, over `MAX_FILE_BYTES`.
    TooLarge(u64),
}

/// Refuses a stylesheet over the size limit.
pub fn check_stylesheet_size(len: u64) -> (r: Result<(), CssError>)
    ensures
        r is Ok <==> len <= MAX_FILE_BYTES,
        r matches Err(e) ==> e == CssError::TooLarge(len),
{
    if len > MAX_FILE_BYTES {
        Err(CssError::TooLarge(len))
    } else {
        Ok(())
    }
}

/// The running watcher, if any, by the id its stop flag was registered
/// under. Replacing or clearing it hands back the old one, to be stopped.
pub struct CustomCssWatch {
    watcher: Option<u64>,
}

impl CustomCssWatch {
    pub closed spec fn running(&self) -> Option<u64> {
        self.watcher
    }

    /// No watcher.
    pub fn new() -> (r: Self)
        ensures
            r.running() is None,
    {
        CustomCssWatch { watcher: None }
    }

    /// Makes `id` the running watcher; the one it replaces, if any, is
    /// returned to be stopped. Only one watcher ever runs.
    pub fn replace(&mut self, id: u64) -> (stopped: Option<u64>)
        ensures
            final(self).running() == Some(id),
            stopped == old(self).running(),
    {
        let old = self.watcher;
        self.watcher = Some(id);
        old
    }

    /// Stops watching; the file itself stays. Returns the watcher to stop.
    pub fn stop(&mut self) -> (stopped: Option<u64>)
        ensures
            final(self).running() is None,
            stopped == old(self).running(),
    {
        let old = self.watcher;
        self.watcher = None;
        old
    }
}

/// What a save changes: the modification time (seconds and nanoseconds) and
/// the length in bytes.
#[derive(Clone, Copy, Debug, PartialEq, Eq)]
pub struct FileStamp {
    pub secs: i64,
    pub nanos: u32,
    pub len: u64,
}

/// What to do after looking at the file's stamp.
#[derive(Clone, Copy, Debug, PartialEq, Eq)]
pub enum StampStep {
    /// Missing (normal for a moment during a rename-style save), not
    /// changed, or not looked for in this round: look again next round.
    Unchanged,
    /// Changed, but over the size limit: ignored.
    TooLarge(u64),
    /// Changed: read the file and pass its content to `on_content`.
    Read,
}

/// Where a watcher is within a polling round.
#[derive(Clone, Copy, Debug, PartialEq, Eq, Structural)]
pub enum RoundPhase {
    /// Between rounds.
    Idle,
    /// A round has begun: the file's stamp is to be looked at.
    AwaitStamp,
    /// The stamp changed: the file's content is to be read.
    AwaitContent,
}

/// Everything the watcher's decisions depend on, and how many changes it has
/// passed on so far.
pub struct CssWatchView {
    pub last_stamp: Option<FileStamp>,
    pub last_content: Seq<char>,
    pub phase: RoundPhase,
    pub stopped: bool,
    pub events: nat,
}

/// One step of a watcher: beginning a round with the stop flag as read,
/// looking at the stamp, or reading the content.
pub enum CssStep {
    Round(bool),
    Stamp(Option<FileStamp>),
    Content(Seq<char>),
}

/// What a step does to the watcher.
pub open spec fn css_step(v: CssWatchView, step: CssStep) -> CssWatchView {
    match step {
        CssStep::Round(stop) => if v.stopped || stop {
            CssWatchView { phase: RoundPhase::Idle, stopped: true, ..v }
        } else {
            CssWatchView { phase: RoundPhase::AwaitStamp, ..v }
        },
        CssStep::Stamp(current) => if v.phase != RoundPhase::AwaitStamp {
            v
        } else {
            match current {
                None => CssWatchView { phase: RoundPhase::Idle, ..v },
                Some(c) => if Some(c) == v.last_stamp {
                    CssWatchView { phase: RoundPhase::Idle, ..v }
                } else if c.len > MAX_FILE_BYTES {
                    CssWatchView { phase: RoundPhase::Idle, last_stamp: Some(c), ..v }
                } else {
                    CssWatchView { phase: RoundPhase::AwaitContent, last_stamp: Some(c), ..v }
                },
            }
        },
        CssStep::Content(content) => if v.phase != RoundPhase::AwaitContent {
            v
        } else if content == v.last_content {
            CssWatchView { phase: RoundPhase::Idle, ..v }
        } else {
            CssWatchView { phase: RoundPhase::Idle, last_content: content, events: v.events + 1, ..v }
        },
    }
}

/// The watcher after a run of steps.
pub open spec fn css_run(v: CssWatchView, steps: Seq<CssStep>) -> CssWatchView
    decreases steps.len(),
{
    if steps.len() == 0 {
        v
    } else {
        css_run(css_step(v, steps[0]), steps.drop_first())
    }
}

/// Changes that may still be passed on before the next round begins.
pub open spec fn pending(v: CssWatchView) -> nat {
    if v.phase == RoundPhase::Idle { 0 } else { 1 }
}

proof fn lemma_run_after_stop(v: CssWatchView, steps: Seq<CssStep>)
    requires
        forall|i: int| 0 <= i < steps.len() ==> (#[trigger] steps[i] matches CssStep::Round(b) ==> b),
    ensures
        css_run(v, steps).events + pending(css_run(v, steps)) <= v.events + pending(v),
    decreases steps.len(),
{
    if steps.len() > 0 {
        let w = css_step(v, steps[0]);
        assert(steps[0] matches CssStep::Round(b) ==> b);
        assert forall|i: int| 0 <= i < steps.drop_first().len() implies (#[trigger] steps.drop_first()[i] matches CssStep::Round(b) ==> b) by {
            assert(steps.drop_first()[i] == steps[i + 1]);
        }
        lemma_run_after_stop(w, steps.drop_first());
    }
}

proof fn lemma_run_when_stopped(v: CssWatchView, steps: Seq<CssStep>)
    requires
        v.stopped,
        v.phase == RoundPhase::Idle,
    ensures
        css_run(v, steps).events == v.events,
        css_run(v, steps).stopped,
        css_run(v, steps).phase == RoundPhase::Idle,
    decreases steps.len(),
{
    if steps.len() > 0 {
        lemma_run_when_stopped(css_step(v, steps[0]), steps.drop_first());
    }
}

/// Once the stop flag is set, at most one more change is passed on (from
/// the round already under way), and once a round has seen the flag, none
/// at all: no round begins again.
pub proof fn law_at_most_one_change_after_stop(v: CssWatchView, steps: Seq<CssStep>)
    requires
        forall|i: int| 0 <= i < steps.len() ==> (#[trigger] steps[i] matches CssStep::Round(b) ==> b),
    ensures
        css_run(v, steps).events <= v.events + 1,
        v.stopped && v.phase == RoundPhase::Idle ==> css_run(v, steps).events == v.events,
        css_step(v, CssStep::Round(true)).stopped,
        css_step(v, CssStep::Round(true)).phase == RoundPhase::Idle,
{
    lemma_run_after_stop(v, steps);
    if v.stopped && v.phase == RoundPhase::Idle {
        lemma_run_when_stopped(v, steps);
    }
}

/// What is passed on becomes what later reads are compared with: once the
/// watcher passes on `c`, the content read in the next round is passed on
/// exactly when it differs from `c`, so an edit that reverts to earlier
/// content is passed on too.
pub proof fn law_compares_with_last_passed_on(v: CssWatchView, c: Seq<char>, s: FileStamp, d: Seq<char>)
    requires
        v.phase == RoundPhase::AwaitContent,
        !v.stopped,
        c != v.last_content,
        Some(s) != v.last_stamp,
        s.len <= MAX_FILE_BYTES,
    ensures
        ({
            let v1 = css_step(v, CssStep::Content(c));
            let v2 = css_step(css_step(v1, CssStep::Round(false)), CssStep::Stamp(Some(s)));
            &&& v1.events == v.events + 1
            &&& v2.phase == RoundPhase::AwaitContent
            &&& (css_step(v2, CssStep::Content(d)).events == v2.events + 1 <==> d != c)
        }),
{
}

/// Polls one file, a round at a time. A save is detected by its stamp and
/// passed on only if the content really changed: some editors touch the
/// file on open without changing it, and that must not count as an edit.
/// A round only begins while the stop flag is unset.
pub struct CssFileWatch {
    last_stamp: Option<FileStamp>,
    last_content: String,
    phase: RoundPhase,
    stopped: bool,
    events: Ghost<nat>,
}

impl CssFileWatch {
    pub closed spec fn view(&self) -> CssWatchView {
        CssWatchView {
            last_stamp: self.last_stamp,
            last_content: self.last_content@,
            phase: self.phase,
            stopped: self.stopped,
            events: self.events@,
        }
    }

    /// Starts from the stamp the file has now and the content just written.
    pub fn new(stamp: Option<FileStamp>, written: String) -> (r: Self)
        ensures
            r.view() == (CssWatchView {
                last_stamp: stamp,
                last_content: written@,
                phase: RoundPhase::Idle,
                stopped: false,
                events: 0,
            }),
    {
        CssFileWatch { last_stamp: stamp, last_content: written, phase: RoundPhase::Idle, stopped: false, events: Ghost(0) }
    }

    /// Begins a round, given the stop flag as read now; returns whether to
    /// poll. Once the flag has been seen, no round begins again.
    pub fn begin_round(&mut self, stop_requested: bool) -> (poll: bool)
        ensures
            poll == !(old(self).view().stopped || stop_requested),
            final(self).view() == css_step(old(self).view(), CssStep::Round(stop_requested)),
    {
        if self.stopped || stop_requested {
            self.stopped = true;
            self.phase = RoundPhase::Idle;
            false
        } else {
            self.phase = RoundPhase::AwaitStamp;
            true
        }
    }

    /// Judges the file's current stamp, within a round.
    pub fn on_stamp(&mut self, current: Option<FileStamp>) -> (r: StampStep)
        ensures
            final(self).view() == css_step(old(self).view(), CssStep::Stamp(current)),
            r == if old(self).view().phase != RoundPhase::AwaitStamp {
                StampStep::Unchanged
            } else {
                match current {
                    None => StampStep::Unchanged,
                    Some(c) => if Some(c) == old(self).view().last_stamp {
                        StampStep::Unchanged
                    } else if c.len > MAX_FILE_BYTES {
                        StampStep::TooLarge(c.len)
                    } else {
                        StampStep::Read
                    },
                }
            },
    {
        if self.phase != RoundPhase::AwaitStamp {
            return StampStep::Unchanged;
        }
        let c = match current {
            Some(c) => c,
            None => {
                self.phase = RoundPhase::Idle;
                return StampStep::Unchanged;
            },
        };
        let same = match self.last_stamp {
            Some(l) => l.secs == c.secs && l.nanos == c.nanos && l.len == c.len,
            None => false,
        };
        if same {
            self.phase = RoundPhase::Idle;
            return StampStep::Unchanged;
        }
        self.last_stamp = Some(c);
        if c.len > MAX_FILE_BYTES {
            self.phase = RoundPhase::Idle;
            StampStep::TooLarge(c.len)
        } else {
            self.phase = RoundPhase::AwaitContent;
            StampStep::Read
        }
    }

    /// Takes the content read after a changed stamp; returns it, to be
    /// passed on, when it differs from the last content seen, which it then
    /// becomes. Content not asked for by `on_stamp` is ignored.
    pub fn on_content(&mut self, content: String) -> (r: Option<String>)
        ensures
            final(self).view() == css_step(old(self).view(), CssStep::Content(content@)),
            r is Some <==> (old(self).view().phase == RoundPhase::AwaitContent
                && content@ != old(self).view().last_content),
            r matches Some(e) ==> e@ == content@,
    {
        if self.phase != RoundPhase::AwaitContent {
            return None;
        }
        self.phase = RoundPhase::Idle;
        if content == self.last_content {
            return None;
        }
        self.last_content = content.clone();
        self.events = Ghost(self.events@ + 1);
        Some(content)
    }
}

} // verus!
