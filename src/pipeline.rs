use vstd::prelude::*;

use crate::error::{ExError, Field};

verus! {

/// How many times an image page is tried before it is given up.
pub const MAX_ATTEMPTS: u32 = 5;

/// Seconds to wait between two attempts on one image page.
pub const RETRY_DELAY_SECS: u64 = 10;

/// Seconds a raw image download may take.
pub const DOWNLOAD_TIMEOUT_SECS: u64 = 30;

/// Where one image page's resolution stands.
#[derive(Clone, Debug, PartialEq, Eq)]
pub enum Phase {
    /// The image page is being fetched.
    Resolving,
    /// The cache is being asked for this image source.
    LookingUp(String),
    /// The image is being downloaded and uploaded.
    Transferring(String),
    /// The pair (source, hosted) is being stored in the cache.
    Recording(String, String),
    /// Waiting before the next attempt.
    Waiting,
    /// Nothing more to do.
    Finished,
}

/// What the surrounding program reports back after performing an action.
#[derive(Clone, Debug)]
pub enum Event {
    /// The image page was fetched; the matches of its image `src` query.
    PageFetched(Vec<String>),
    /// The cache's answer for the image source.
    CacheAnswer(Option<String>),
    /// The upload finished; the hosted paths it returned.
    Transferred(Vec<String>),
    /// The cache took the new pair.
    Recorded,
    /// The action failed.
    Failed(ExError),
    /// The backoff delay is over.
    Waited,
}

/// What the surrounding program is to do next.
#[derive(Clone, Debug, PartialEq, Eq)]
pub enum Action {
    FetchPage(String),
    LookUp(String),
    /// Download the image at this source and upload it to the hosting service.
    Transfer(String),
    Record(String, String),
    /// Sleep this many seconds.
    Wait(u64),
    Succeed(String),
    Fail(ExError),
}

/// The resolution of one image page to a hosted URL, with its attempt count.
#[derive(Clone, Debug)]
pub struct ImageTask {
    pub page_url: String,
    /// The attempt under way, from 1.
    pub attempts: u32,
    pub phase: Phase,
}

/// Whether `ev` is an answer to the action that `phase` waits on.
pub open spec fn expects(phase: Phase, ev: Event) -> bool {
    match phase {
        Phase::Resolving => ev is PageFetched || ev is Failed,
        Phase::LookingUp(_) => ev is CacheAnswer || ev is Failed,
        Phase::Transferring(_) => ev is Transferred || ev is Failed,
        Phase::Recording(_, _) => ev is Recorded || ev is Failed,
        Phase::Waiting => ev is Waited,
        Phase::Finished => false,
    }
}

/// The task in another phase.
pub open spec fn with_phase(t: ImageTask, phase: Phase) -> ImageTask {
    ImageTask { page_url: t.page_url, attempts: t.attempts, phase }
}

/// After a failed attempt: wait and retry while attempts remain, else give up.
pub open spec fn after_failure(t: ImageTask) -> (ImageTask, Action) {
    if t.attempts < MAX_ATTEMPTS {
        (with_phase(t, Phase::Waiting), Action::Wait(RETRY_DELAY_SECS))
    } else {
        (with_phase(t, Phase::Finished), Action::Fail(ExError::ResolutionFailed(t.page_url)))
    }
}

/// The task's next state and action on an expected event.
pub open spec fn next(t: ImageTask, ev: Event) -> (ImageTask, Action) {
    match ev {
        Event::Failed(_) => after_failure(t),
        Event::PageFetched(srcs) => if srcs@.len() == 0 {
            after_failure(t)
        } else {
            (with_phase(t, Phase::LookingUp(srcs@[0])), Action::LookUp(srcs@[0]))
        },
        Event::CacheAnswer(hit) => match t.phase {
            Phase::LookingUp(src) => match hit {
                Some(hosted) => (with_phase(t, Phase::Finished), Action::Succeed(hosted)),
                None => (with_phase(t, Phase::Transferring(src)), Action::Transfer(src)),
            },
            _ => (t, Action::Fail(ExError::Extraction(Field::ImageSource))),
        },
        Event::Transferred(hosted) => match t.phase {
            Phase::Transferring(src) => if hosted@.len() == 0 {
                after_failure(t)
            } else {
                (
                    with_phase(t, Phase::Recording(src, hosted@[0])),
                    Action::Record(src, hosted@[0]),
                )
            },
            _ => (t, Action::Fail(ExError::Extraction(Field::HostedUrl))),
        },
        Event::Recorded => match t.phase {
            Phase::Recording(_, hosted) => (with_phase(t, Phase::Finished), Action::Succeed(hosted)),
            _ => (t, Action::Fail(ExError::Extraction(Field::HostedUrl))),
        },
        Event::Waited => (
            ImageTask { page_url: t.page_url, attempts: (t.attempts + 1) as u32, phase: Phase::Resolving },
            Action::FetchPage(t.page_url),
        ),
    }
}

/// The task after `k` rounds of a failed attempt followed by the backoff wait.
pub open spec fn run_failing(t: ImageTask, e: ExError, k: nat) -> ImageTask
    decreases k,
{
    if k == 0 {
        t
    } else {
        let f = next(run_failing(t, e, (k - 1) as nat), Event::Failed(e)).0;
        next(f, Event::Waited).0
    }
}

impl ImageTask {
    pub open spec fn well_formed(&self) -> bool {
        &&& 1 <= self.attempts <= MAX_ATTEMPTS
        &&& self.phase is Waiting ==> self.attempts < MAX_ATTEMPTS
    }

    /// A task on its first attempt, about to fetch `page_url`.
    pub fn new(page_url: String) -> (r: ImageTask)
        ensures
            r == (ImageTask { page_url, attempts: 1, phase: Phase::Resolving }),
            r.well_formed(),
    {
        ImageTask { page_url, attempts: 1, phase: Phase::Resolving }
    }

    /// The first action: fetch the image page.
    pub fn start(&self) -> (r: Action)
        ensures
            r == Action::FetchPage(self.page_url),
    {
        Action::FetchPage(self.page_url.clone())
    }

    /// Whether the event `ev` fits the current phase.
    pub fn accepts(&self, ev: &Event) -> (r: bool)
        ensures
            r == expects(self.phase, *ev),
    {
        match self.phase {
            Phase::Resolving => match ev {
                Event::PageFetched(_) | Event::Failed(_) => true,
                _ => false,
            },
            Phase::LookingUp(_) => match ev {
                Event::CacheAnswer(_) | Event::Failed(_) => true,
                _ => false,
            },
            Phase::Transferring(_) => match ev {
                Event::Transferred(_) | Event::Failed(_) => true,
                _ => false,
            },
            Phase::Recording(_, _) => match ev {
                Event::Recorded | Event::Failed(_) => true,
                _ => false,
            },
            Phase::Waiting => match ev {
                Event::Waited => true,
                _ => false,
            },
            Phase::Finished => false,
        }
    }

    fn fail_attempt(&mut self) -> (r: Action)
        requires
            old(self).well_formed(),
        ensures
            (*final(self), r) == after_failure(*old(self)),
    {
        if self.attempts < MAX_ATTEMPTS {
            self.phase = Phase::Waiting;
            Action::Wait(RETRY_DELAY_SECS)
        } else {
            self.phase = Phase::Finished;
            Action::Fail(ExError::ResolutionFailed(self.page_url.clone()))
        }
    }

    /// Moves the task on by the outcome of its last action.
    pub fn step(&mut self, ev: Event) -> (r: Action)
        requires
            old(self).well_formed(),
            expects(old(self).phase, ev),
        ensures
            (*final(self), r) == next(*old(self), ev),
            final(self).well_formed(),
    {
        match ev {
            Event::Failed(_) => self.fail_attempt(),
            Event::PageFetched(srcs) => {
                if srcs.len() == 0 {
                    self.fail_attempt()
                } else {
                    let src = srcs[0].clone();
                    self.phase = Phase::LookingUp(src.clone());
                    Action::LookUp(src)
                }
            },
            Event::CacheAnswer(hit) => {
                let src = match &self.phase {
                    Phase::LookingUp(src) => src.clone(),
                    _ => {
                        return Action::Fail(ExError::Extraction(Field::ImageSource));
                    },
                };
                match hit {
                    Some(hosted) => {
                        self.phase = Phase::Finished;
                        Action::Succeed(hosted)
                    },
                    None => {
                        self.phase = Phase::Transferring(src.clone());
                        Action::Transfer(src)
                    },
                }
            },
            Event::Transferred(hosted) => {
                let src = match &self.phase {
                    Phase::Transferring(src) => src.clone(),
                    _ => {
                        return Action::Fail(ExError::Extraction(Field::HostedUrl));
                    },
                };
                if hosted.len() == 0 {
                    self.fail_attempt()
                } else {
                    let h = hosted[0].clone();
                    self.phase = Phase::Recording(src.clone(), h.clone());
                    Action::Record(src, h)
                }
            },
            Event::Recorded => {
                let hosted = match &self.phase {
                    Phase::Recording(_, hosted) => hosted.clone(),
                    _ => {
                        return Action::Fail(ExError::Extraction(Field::HostedUrl));
                    },
                };
                self.phase = Phase::Finished;
                Action::Succeed(hosted)
            },
            Event::Waited => {
                self.attempts = self.attempts + 1;
                self.phase = Phase::Resolving;
                Action::FetchPage(self.page_url.clone())
            },
        }
    }
}

/// A cache hit ends the task at once with the cached hosted URL: no transfer is asked
/// for, whatever the task's attempt count.
pub proof fn lemma_cache_hit_short_circuits(t: ImageTask, hosted: String)
    requires
        t.well_formed(),
        t.phase is LookingUp,
    ensures
        next(t, Event::CacheAnswer(Some(hosted))).1 == Action::Succeed(hosted),
        next(t, Event::CacheAnswer(Some(hosted))).0.phase is Finished,
{
}

/// An image page that fails every time is attempted exactly `MAX_ATTEMPTS` times:
/// each of the first `MAX_ATTEMPTS - 1` failures brings a wait of `RETRY_DELAY_SECS`
/// and a new fetch of the page, and the last one gives `ResolutionFailed` for it.
pub proof fn lemma_retry_bound(url: String, e: ExError)
    ensures
        forall|k: nat|
            k < MAX_ATTEMPTS ==> #[trigger] run_failing(
                ImageTask { page_url: url, attempts: 1, phase: Phase::Resolving },
                e,
                k,
            ) == (ImageTask { page_url: url, attempts: (k + 1) as u32, phase: Phase::Resolving }),
        forall|k: nat|
            k + 1 < MAX_ATTEMPTS ==> next(
                #[trigger] run_failing(
                    ImageTask { page_url: url, attempts: 1, phase: Phase::Resolving },
                    e,
                    k,
                ),
                Event::Failed(e),
            ).1 == Action::Wait(RETRY_DELAY_SECS) && next(
                next(
                    run_failing(
                        ImageTask { page_url: url, attempts: 1, phase: Phase::Resolving },
                        e,
                        k,
                    ),
                    Event::Failed(e),
                ).0,
                Event::Waited,
            ).1 == Action::FetchPage(url),
        next(
            run_failing(
                ImageTask { page_url: url, attempts: 1, phase: Phase::Resolving },
                e,
                (MAX_ATTEMPTS - 1) as nat,
            ),
            Event::Failed(e),
        ).1 == Action::Fail(ExError::ResolutionFailed(url)),
{
    let t0 = ImageTask { page_url: url, attempts: 1, phase: Phase::Resolving };
    assert forall|k: nat| k < MAX_ATTEMPTS implies #[trigger] run_failing(t0, e, k) == (ImageTask {
        page_url: url,
        attempts: (k + 1) as u32,
        phase: Phase::Resolving,
    }) by {
        lemma_run_failing(url, e, k);
    }
    lemma_run_failing(url, e, 4);
}

proof fn lemma_run_failing(url: String, e: ExError, k: nat)
    requires
        k < MAX_ATTEMPTS,
    ensures
        run_failing(ImageTask { page_url: url, attempts: 1, phase: Phase::Resolving }, e, k) == (
        ImageTask { page_url: url, attempts: (k + 1) as u32, phase: Phase::Resolving }),
    decreases k,
{
    if k > 0 {
        lemma_run_failing(url, e, (k - 1) as nat);
    }
}

/// Hands out the 1-based number of each dispatched item.
#[derive(Clone, Copy, Debug)]
pub struct Progress {
    pub done: u32,
    pub total: u32,
}

impl Progress {
    pub fn new(total: u32) -> (r: Progress)
        ensures
            r.done == 0,
            r.total == total,
    {
        Progress { done: 0, total }
    }

    /// Counts one more dispatched item and returns its number.
    pub fn advance(&mut self) -> (k: u32)
        requires
            old(self).done < old(self).total,
        ensures
            k == old(self).done + 1,
            final(self).done == k,
            final(self).total == old(self).total,
    {
        self.done = self.done + 1;
        self.done
    }
}

/// The results of a work-list, one slot per item, filled in any order.
pub struct ResultSlots {
    pub slots: Vec<Option<Result<String, ExError>>>,
}

/// `n` slots with no result yet.
pub open spec fn empty_slots(n: nat) -> Seq<Option<Result<String, ExError>>> {
    Seq::new(n, |x: int| None::<Result<String, ExError>>)
}

/// The error of the lowest-index failed slot, if any.
pub open spec fn first_error(s: Seq<Option<Result<String, ExError>>>) -> Option<ExError>
    decreases s.len(),
{
    if s.len() == 0 {
        None
    } else {
        match s[0] {
            Some(Err(e)) => Some(e),
            _ => first_error(s.drop_first()),
        }
    }
}

/// Slots after recording `vals[order[k]]` at `order[k]` for each `k` in turn.
pub open spec fn record_all(
    slots: Seq<Option<Result<String, ExError>>>,
    order: Seq<int>,
    vals: Seq<Result<String, ExError>>,
) -> Seq<Option<Result<String, ExError>>>
    decreases order.len(),
{
    if order.len() == 0 {
        slots
    } else {
        let i = order.last();
        record_all(slots, order.drop_last(), vals).update(i, Some(vals[i]))
    }
}

impl ResultSlots {
    /// `n` empty slots.
    pub fn new(n: usize) -> (r: ResultSlots)
        ensures
            r.slots@ == empty_slots(n as nat),
    {
        let mut slots: Vec<Option<Result<String, ExError>>> = Vec::new();
        let mut i: usize = 0;
        while i < n
            invariant
                i <= n,
                slots@ == empty_slots(i as nat),
            decreases n - i,
        {
            slots.push(None);
            i += 1;
            assert(slots@ =~= empty_slots(i as nat));
        }
        ResultSlots { slots }
    }

    /// Stores the result of item `i`, whenever it completes.
    pub fn record(&mut self, i: usize, r: Result<String, ExError>)
        requires
            i < old(self).slots@.len(),
        ensures
            final(self).slots@ == old(self).slots@.update(i as int, Some(r)),
    {
        self.slots.set(i, Some(r));
    }

    /// Whether every item has a result.
    pub fn is_complete(&self) -> (r: bool)
        ensures
            r == forall|i: int| 0 <= i < self.slots@.len() ==> (#[trigger] self.slots@[i]) is Some,
    {
        let mut i: usize = 0;
        while i < self.slots.len()
            invariant
                i <= self.slots@.len(),
                forall|k: int| 0 <= k < i ==> (#[trigger] self.slots@[k]) is Some,
            decreases self.slots@.len() - i,
        {
            if self.slots[i].is_none() {
                return false;
            }
            i += 1;
        }
        true
    }

    /// The results in input order, or the error of the lowest-index failed item.
    pub fn finish(self) -> (r: Result<Vec<String>, ExError>)
        requires
            forall|i: int| 0 <= i < self.slots@.len() ==> (#[trigger] self.slots@[i]) is Some,
        ensures
            first_error(self.slots@) is Some ==> r == Err::<Vec<String>, ExError>(
                first_error(self.slots@)->0,
            ),
            first_error(self.slots@) is None ==> r is Ok && r->Ok_0@.len() == self.slots@.len()
                && forall|i: int|
                0 <= i < self.slots@.len() ==> self.slots@[i] == Some(
                    Ok::<String, ExError>(#[trigger] r->Ok_0@[i]),
                ),
    {
        let ghost all = self.slots@;
        let mut rest = self.slots;
        let mut out: Vec<String> = Vec::new();
        assert(all.subrange(0, all.len() as int) =~= all);
        while rest.len() > 0
            invariant
                all == self.slots@,
                rest@ == all.subrange(out@.len() as int, all.len() as int),
                out@.len() <= all.len(),
                forall|i: int| 0 <= i < all.len() ==> (#[trigger] all[i]) is Some,
                first_error(all) == first_error(rest@),
                forall|i: int|
                    0 <= i < out@.len() ==> all[i] == Some(Ok::<String, ExError>(#[trigger] out@[i])),
            decreases rest@.len(),
        {
            let ghost k = out@.len() as int;
            assert(rest@[0] == all[k]);
            assert(rest@.drop_first() =~= all.subrange(k + 1, all.len() as int));
            let ghost before = rest@;
            assert(before[0] is Some);
            let slot = rest.remove(0);
            assert(rest@ =~= before.drop_first());
            match slot {
                Some(Ok(v)) => {
                    assert(first_error(before) == first_error(before.drop_first()));
                    out.push(v);
                },
                Some(Err(e)) => {
                    assert(first_error(before) == Some(e));
                    return Err(e);
                },
                None => {
                    return Err(ExError::Extraction(Field::HostedUrl));
                },
            }
        }
        Ok(out)
    }
}

/// Whether index `i` occurs in `order`.
pub open spec fn covers(order: Seq<int>, i: int) -> bool {
    exists|k: int| 0 <= k < order.len() && order[k] == i
}

proof fn lemma_record_all(
    n: nat,
    order: Seq<int>,
    vals: Seq<Result<String, ExError>>,
    i: int,
)
    requires
        vals.len() == n,
        forall|k: int| 0 <= k < order.len() ==> 0 <= #[trigger] order[k] < n,
        0 <= i < n,
    ensures
        record_all(empty_slots(n), order, vals).len() == n,
        covers(order, i) ==> record_all(
            empty_slots(n),
            order,
            vals,
        )[i] == Some(vals[i]),
        !covers(order, i) ==> record_all(
            empty_slots(n),
            order,
            vals,
        )[i] is None,
    decreases order.len(),
{
    if order.len() > 0 {
        let init = order.drop_last();
        assert forall|k: int| 0 <= k < init.len() implies 0 <= #[trigger] init[k] < n by {
            assert(init[k] == order[k]);
        }
        lemma_record_all(n, init, vals, i);
        if covers(init, i) {
            let k = choose|k: int| 0 <= k < init.len() && init[k] == i;
            assert(order[k] == i);
        }
        if covers(order, i) {
            let k = choose|k: int| 0 <= k < order.len() && order[k] == i;
            if k < init.len() {
                assert(init[k] == i);
            }
        }
    }
}

/// Results come out aligned with the work-list whatever order the items complete in:
/// when every index of `n` items is recorded, in any order and by any number of
/// workers, slot `i` holds the result of item `i`.
pub proof fn lemma_output_alignment(
    n: nat,
    order: Seq<int>,
    vals: Seq<Result<String, ExError>>,
)
    requires
        vals.len() == n,
        forall|k: int| 0 <= k < order.len() ==> 0 <= #[trigger] order[k] < n,
        forall|i: int| 0 <= i < n ==> #[trigger] covers(order, i),
    ensures
        record_all(empty_slots(n), order, vals).len() == n,
        forall|i: int|
            0 <= i < n ==> #[trigger] record_all(
                empty_slots(n),
                order,
                vals,
            )[i] == Some(vals[i]),
{
    lemma_record_len(n, order, vals);
    assert forall|i: int| 0 <= i < n implies #[trigger] record_all(
        empty_slots(n),
        order,
        vals,
    )[i] == Some(vals[i]) by {
        lemma_record_all(n, order, vals, i);
    }
}

proof fn lemma_record_len(n: nat, order: Seq<int>, vals: Seq<Result<String, ExError>>)
    requires
        forall|k: int| 0 <= k < order.len() ==> 0 <= #[trigger] order[k] < n,
    ensures
        record_all(empty_slots(n), order, vals).len() == n,
    decreases order.len(),
{
    if order.len() > 0 {
        let init = order.drop_last();
        assert forall|k: int| 0 <= k < init.len() implies 0 <= #[trigger] init[k] < n by {
            assert(init[k] == order[k]);
        }
        lemma_record_len(n, init, vals);
    }
}

} // verus!
