use vstd::prelude::*;

verus! {

/// Where a render stands between its I/O steps.
#[derive(Clone, Copy, Debug, PartialEq, Eq, Structural)]
pub enum Stage {
    /// Nothing done yet.
    Idle,
    /// Waiting for the cache lookup.
    LookingUp,
    /// Waiting for the renderer.
    Rendering,
    /// Waiting for the payload to be written to the cache.
    Storing,
    /// Waiting for the cache's byte budget to be enforced.
    Evicting,
    /// The render has returned or failed.
    Done,
}

/// What the caller reports after performing an action.
#[derive(Debug)]
pub enum PipelineEvent {
    /// Begin the render.
    Start,
    /// The cache lookup's result; a failed read is reported as `None`.
    LookedUp(Option<String>),
    /// The renderer's payload, or its diagnostic.
    Rendered(Result<String, String>),
    /// Whether writing the payload to the cache succeeded.
    Stored(bool),
    /// The budget has been enforced (best effort).
    Evicted,
}

/// What the caller is to do next.
#[derive(Clone, Debug)]
pub enum PipelineAction {
    /// Look the key up in the cache (touching the entry on a hit).
    Lookup,
    /// Run the renderer.
    Render,
    /// Write this payload to the cache.
    Store(String),
    /// Evict cache entries until the cache holds at most this many bytes.
    Evict(u64),
    /// The render is done: this is its payload.
    Return(String),
    /// The render failed with this diagnostic.
    Fail(String),
}

/// The render pipeline: cache lookup, rendering on a miss, storing and
/// eviction. The caller performs each action and reports the event.
#[derive(Clone, Debug)]
pub struct Pipeline {
    /// Whether the cache is used at all.
    pub cache_enabled: bool,
    /// The cache's byte budget.
    pub max_bytes: u64,
    /// Where the render stands.
    pub stage: Stage,
    /// The rendered payload, held while it is stored and the budget enforced.
    pub payload: Option<String>,
}

/// The events the pipeline accepts in its stage.
pub open spec fn accepts(p: Pipeline, e: PipelineEvent) -> bool {
    match e {
        PipelineEvent::Start => p.stage == Stage::Idle,
        PipelineEvent::LookedUp(_) => p.stage == Stage::LookingUp,
        PipelineEvent::Rendered(_) => p.stage == Stage::Rendering,
        PipelineEvent::Stored(_) => p.stage == Stage::Storing,
        PipelineEvent::Evicted => p.stage == Stage::Evicting,
    }
}

impl Pipeline {
    /// A payload is held exactly while it is being stored or the budget enforced.
    pub open spec fn wf(&self) -> bool {
        (self.stage == Stage::Storing || self.stage == Stage::Evicting) <==> self.payload.is_some()
    }
}

/// The next state and action after event `e`. A hit is returned without
/// rendering; a miss is rendered; with the cache on, a rendered payload is
/// stored and the budget enforced before it is returned, whether or not the
/// write succeeded; a renderer failure fails the render and stores nothing.
pub open spec fn pipeline_next(p: Pipeline, e: PipelineEvent) -> (Pipeline, PipelineAction) {
    match e {
        PipelineEvent::Start => {
            if p.cache_enabled {
                (Pipeline { stage: Stage::LookingUp, ..p }, PipelineAction::Lookup)
            } else {
                (Pipeline { stage: Stage::Rendering, ..p }, PipelineAction::Render)
            }
        },
        PipelineEvent::LookedUp(Some(hit)) => (
            Pipeline { stage: Stage::Done, ..p },
            PipelineAction::Return(hit),
        ),
        PipelineEvent::LookedUp(None) => (
            Pipeline { stage: Stage::Rendering, ..p },
            PipelineAction::Render,
        ),
        PipelineEvent::Rendered(Ok(out)) => {
            if p.cache_enabled {
                (
                    Pipeline { stage: Stage::Storing, payload: Some(out), ..p },
                    PipelineAction::Store(out),
                )
            } else {
                (Pipeline { stage: Stage::Done, ..p }, PipelineAction::Return(out))
            }
        },
        PipelineEvent::Rendered(Err(diag)) => (
            Pipeline { stage: Stage::Done, ..p },
            PipelineAction::Fail(diag),
        ),
        PipelineEvent::Stored(_) => (
            Pipeline { stage: Stage::Evicting, ..p },
            PipelineAction::Evict(p.max_bytes),
        ),
        PipelineEvent::Evicted => (
            Pipeline { stage: Stage::Done, payload: None, ..p },
            PipelineAction::Return(p.payload->Some_0),
        ),
    }
}

impl Pipeline {
    /// A render not yet started.
    pub fn new(cache_enabled: bool, max_bytes: u64) -> (r: Self)
        ensures
            r == (Pipeline { cache_enabled, max_bytes, stage: Stage::Idle, payload: None }),
            r.wf(),
    {
        Pipeline { cache_enabled, max_bytes, stage: Stage::Idle, payload: None }
    }

    /// Takes the event the caller reports and says what to do next.
    pub fn on_event(&mut self, e: PipelineEvent) -> (r: PipelineAction)
        requires
            old(self).wf(),
            accepts(*old(self), e),
        ensures
            (*final(self), r) == pipeline_next(*old(self), e),
            final(self).wf(),
    {
        match e {
            PipelineEvent::Start => {
                if self.cache_enabled {
                    self.stage = Stage::LookingUp;
                    PipelineAction::Lookup
                } else {
                    self.stage = Stage::Rendering;
                    PipelineAction::Render
                }
            },
            PipelineEvent::LookedUp(Some(hit)) => {
                self.stage = Stage::Done;
                PipelineAction::Return(hit)
            },
            PipelineEvent::LookedUp(None) => {
                self.stage = Stage::Rendering;
                PipelineAction::Render
            },
            PipelineEvent::Rendered(Ok(out)) => {
                if self.cache_enabled {
                    self.stage = Stage::Storing;
                    self.payload = Some(out.clone());
                    PipelineAction::Store(out)
                } else {
                    self.stage = Stage::Done;
                    PipelineAction::Return(out)
                }
            },
            PipelineEvent::Rendered(Err(diag)) => {
                self.stage = Stage::Done;
                PipelineAction::Fail(diag)
            },
            PipelineEvent::Stored(_) => {
                self.stage = Stage::Evicting;
                PipelineAction::Evict(self.max_bytes)
            },
            PipelineEvent::Evicted => {
                self.stage = Stage::Done;
                let out = match self.payload.take() {
                    Some(out) => out,
                    None => String::new(),
                };
                PipelineAction::Return(out)
            },
        }
    }
}

/// A cache budget of `mb` mebibytes in bytes, saturating at `u64::MAX`.
pub fn cache_budget_bytes(mb: u64) -> (r: u64)
    ensures
        r as int == if mb * 1048576 <= u64::MAX { mb * 1048576 } else { u64::MAX as int },
{
    if mb <= u64::MAX / 1048576 {
        mb * 1048576
    } else {
        u64::MAX
    }
}

/// Only the renderer's failure fails a render: no outcome of a cache lookup,
/// a cache write or an eviction does.
pub proof fn lemma_cache_never_fails(p: Pipeline, e: PipelineEvent)
    requires
        p.wf(),
        accepts(p, e),
        !(e is Rendered),
    ensures
        !(pipeline_next(p, e).1 is Fail),
{
}

/// With the cache off, a render never looks up, stores or evicts: it starts
/// the renderer and returns its payload.
pub proof fn lemma_cache_off_renders(p: Pipeline, out: String)
    requires
        !p.cache_enabled,
    ensures
        pipeline_next(p, PipelineEvent::Start).1 == PipelineAction::Render,
        pipeline_next(p, PipelineEvent::Rendered(Ok(out))).1 == PipelineAction::Return(out),
{
}

/// With the cache on, a render starts with a lookup, a hit is returned as it
/// is, and a renderer failure ends the render without storing anything.
pub proof fn lemma_cache_on_flow(p: Pipeline, hit: String, diag: String)
    requires
        p.cache_enabled,
    ensures
        pipeline_next(p, PipelineEvent::Start).1 == PipelineAction::Lookup,
        pipeline_next(p, PipelineEvent::LookedUp(Some(hit))).1 == PipelineAction::Return(hit),
        pipeline_next(p, PipelineEvent::LookedUp(None)).1 == PipelineAction::Render,
        pipeline_next(p, PipelineEvent::Rendered(Err(diag))).1 == PipelineAction::Fail(diag),
        pipeline_next(p, PipelineEvent::Rendered(Err(diag))).0.stage == Stage::Done,
{
}

/// With the cache on, a rendered payload is stored, then the budget is
/// enforced, then that same payload is returned, whether the write succeeded
/// or not.
pub proof fn lemma_miss_stores_then_evicts(p: Pipeline, out: String, written: bool)
    requires
        p.cache_enabled,
        p.stage == Stage::Rendering,
        p.wf(),
    ensures
        ({
            let (p1, a1) = pipeline_next(p, PipelineEvent::Rendered(Ok(out)));
            let (p2, a2) = pipeline_next(p1, PipelineEvent::Stored(written));
            let (p3, a3) = pipeline_next(p2, PipelineEvent::Evicted);
            &&& a1 == PipelineAction::Store(out)
            &&& a2 == PipelineAction::Evict(p.max_bytes)
            &&& a3 == PipelineAction::Return(out)
            &&& p3.stage == Stage::Done
        }),
{
}

} // verus!
