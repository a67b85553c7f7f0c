use vstd::prelude::*;
use crate::buffer::{parse_lines, render_contents, render_text, split_lines, views_of};
use crate::config::Config;
use crate::error::Error;
use crate::plan::{
    collect_conflicts, collect_source_failures, conflict_views, conflicts_of, destinations_of,
    lemma_conflicts_empty, lemma_noop_plan_empty, lemma_source_failures_empty, make_plan,
    pair_views, plan_destinations, plan_of, source_failures, DestStat,
};

verus! {

/// Where a run stands: which stage of the pipeline it is waiting on, and what
/// that stage needs to go on.
pub enum Session {
    StattingSources { config: Config },
    CreatingBuffer { config: Config },
    WritingBuffer { config: Config, buffer: String },
    AwaitingEditor { config: Config, buffer: String },
    ReadingBuffer { config: Config, buffer: String },
    CheckingDestinations { plan: Vec<(String, String)> },
    Renaming { plan: Vec<(String, String)>, next: usize },
    Done,
}

/// What the session asks its caller to do next. Everything that touches the
/// world — checking paths, the temporary buffer, the editor process, the
/// renames — is performed by the caller, which reports back with an `Event`.
pub enum Action {
    StatSources { paths: Vec<String> },
    CreateBuffer,
    WriteBuffer { buffer: String, contents: String },
    RunEditor { editor: String, buffer: String },
    ReadBuffer { buffer: String },
    StatDestinations { destinations: Vec<String> },
    DoRename { from: String, to: String },
    Succeed { nothing_to_do: bool },
    Fail { error: Error },
}

/// What the caller reports back after performing an action. Path checks
/// report one outcome per path, in order; failures carry the underlying
/// error's text.
#[allow(inconsistent_fields)]
pub enum Event {
    SourcesChecked { outcomes: Vec<Option<String>> },
    BufferCreated { path: String },
    BufferCreateFailed { dir_path: String, error: String },
    BufferWritten,
    BufferWriteFailed { error: String },
    EditorExited { success: bool, code: Option<i32> },
    EditorSpawnFailed { error: String },
    BufferRead { text: String },
    BufferOpenFailed { error: String },
    BufferReadFailed { error: String },
    DestinationsChecked { outcomes: Vec<DestStat> },
    Renamed,
    RenameFailed { error: String },
}

impl Session {
    /// A session never holds an empty plan, and never waits on a rename
    /// outside its plan.
    pub open spec fn inv(&self) -> bool {
        match self {
            Session::CheckingDestinations { plan } => plan@.len() > 0,
            Session::Renaming { plan, next } => (next as int) < plan@.len(),
            _ => true,
        }
    }

    /// Which events answer the pending action of this state. A finished
    /// session expects nothing.
    pub open spec fn expects(&self, event: &Event) -> bool {
        match self {
            Session::StattingSources { config } => event matches Event::SourcesChecked { outcomes }
                && outcomes@.len() == config.paths@.len(),
            Session::CreatingBuffer { .. } => event is BufferCreated
                || event is BufferCreateFailed,
            Session::WritingBuffer { .. } => event is BufferWritten || event is BufferWriteFailed,
            Session::AwaitingEditor { .. } => event is EditorExited || event is EditorSpawnFailed,
            Session::ReadingBuffer { .. } => event is BufferRead || event is BufferOpenFailed
                || event is BufferReadFailed,
            Session::CheckingDestinations { plan } => event matches Event::DestinationsChecked {
                outcomes,
            } && outcomes@.len() == plan@.len(),
            Session::Renaming { .. } => event is Renamed || event is RenameFailed,
            Session::Done => false,
        }
    }
}

/// The whole pipeline, one transition at a time: what state and action follow
/// from a state and the event that answers it.
pub open spec fn step_spec(pre: Session, event: Event, post: Session, act: Action) -> bool {
    match (pre, event) {
        (Session::StattingSources { config }, Event::SourcesChecked { outcomes }) => {
            let fails = source_failures(
                views_of(config.paths@),
                outcomes@,
                config.paths@.len() as int,
            );
            if fails.len() == 0 {
                &&& post matches Session::CreatingBuffer { config: c } && c == config
                &&& act is CreateBuffer
            } else {
                &&& post is Done
                &&& act matches Action::Fail { error: Error::BadSources { errors } }
                    && pair_views(errors@) == fails
            }
        },
        (Session::CreatingBuffer { config }, Event::BufferCreated { path }) => {
            &&& post matches Session::WritingBuffer { config: c, buffer } && c == config && buffer
                == path
            &&& act matches Action::WriteBuffer { buffer, contents } && buffer == path && contents@
                == render_text(views_of(config.paths@), config.paths@.len() as int)
        },
        (Session::CreatingBuffer { config }, Event::BufferCreateFailed { dir_path, error }) => {
            &&& post is Done
            &&& act matches Action::Fail { error: Error::TempfileCreation { io_error, dir_path: d } }
                && io_error == error && d == dir_path
        },
        (Session::WritingBuffer { config, buffer }, Event::BufferWritten) => {
            &&& post matches Session::AwaitingEditor { config: c, buffer: b } && c == config && b
                == buffer
            &&& act matches Action::RunEditor { editor, buffer: b } && editor == config.editor && b
                == buffer
        },
        (Session::WritingBuffer { config, buffer }, Event::BufferWriteFailed { error }) => {
            &&& post is Done
            &&& act matches Action::Fail { error: Error::TempfileWrite { io_error, path } }
                && io_error == error && path == buffer
        },
        (Session::AwaitingEditor { config, buffer }, Event::EditorExited { success, code }) => {
            if success {
                &&& post matches Session::ReadingBuffer { config: c, buffer: b } && c == config
                    && b == buffer
                &&& act matches Action::ReadBuffer { buffer: b } && b == buffer
            } else {
                &&& post is Done
                &&& act matches Action::Fail { error: Error::EditorStatus { status } } && status
                    == code
            }
        },
        (Session::AwaitingEditor { config, buffer }, Event::EditorSpawnFailed { error }) => {
            &&& post is Done
            &&& act matches Action::Fail {
                error: Error::EditorInvocation { io_error, editor_command },
            } && io_error == error && editor_command == config.editor
        },
        (Session::ReadingBuffer { config, buffer }, Event::BufferRead { text }) => {
            let lines = split_lines(text@);
            if lines.len() != config.paths@.len() {
                &&& post is Done
                &&& act matches Action::Fail { error: Error::LineCount { file_count, line_count } }
                    && file_count == config.paths@.len() && line_count == lines.len()
            } else {
                let p = plan_of(views_of(config.paths@), lines, config.paths@.len() as int);
                if p.len() == 0 {
                    &&& post is Done
                    &&& act matches Action::Succeed { nothing_to_do: true }
                } else {
                    &&& post matches Session::CheckingDestinations { plan } && pair_views(plan@)
                        == p
                    &&& act matches Action::StatDestinations { destinations } && views_of(
                        destinations@,
                    ) == destinations_of(p)
                }
            }
        },
        (Session::ReadingBuffer { config, buffer }, Event::BufferOpenFailed { error }) => {
            &&& post is Done
            &&& act matches Action::Fail { error: Error::TempfileOpen { io_error, path } }
                && io_error == error && path == buffer
        },
        (Session::ReadingBuffer { config, buffer }, Event::BufferReadFailed { error }) => {
            &&& post is Done
            &&& act matches Action::Fail { error: Error::TempfileRead { io_error, path } }
                && io_error == error && path == buffer
        },
        (Session::CheckingDestinations { plan }, Event::DestinationsChecked { outcomes }) => {
            let cs = conflicts_of(
                destinations_of(pair_views(plan@)),
                outcomes@,
                plan@.len() as int,
            );
            if cs.len() == 0 {
                &&& post matches Session::Renaming { plan: p, next } && p == plan && next == 0
                &&& act matches Action::DoRename { from, to } && from == plan@[0].0 && to
                    == plan@[0].1
            } else {
                &&& post is Done
                &&& act matches Action::Fail { error: Error::BadDestinations { errors } }
                    && conflict_views(errors@) == cs
            }
        },
        (Session::Renaming { plan, next }, Event::Renamed) => {
            if next + 1 < plan@.len() {
                &&& post matches Session::Renaming { plan: p, next: n } && p == plan && n == next
                    + 1
                &&& act matches Action::DoRename { from, to } && from == plan@[next + 1].0 && to
                    == plan@[next + 1].1
            } else {
                &&& post is Done
                &&& act matches Action::Succeed { nothing_to_do: false }
            }
        },
        (Session::Renaming { plan, next }, Event::RenameFailed { error }) => {
            &&& post is Done
            &&& act matches Action::Fail { error: Error::Rename { io_error, from, to } }
                && io_error == error && from == plan@[next as int].0 && to == plan@[next as int].1
        },
        _ => false,
    }
}

/// An exact copy of a list of strings.
fn clone_strings(v: &Vec<String>) -> (r: Vec<String>)
    ensures
        r@ == v@,
{
    let mut r: Vec<String> = Vec::new();
    let mut i: usize = 0;
    while i < v.len()
        invariant
            i <= v@.len(),
            r@ == v@.take(i as int),
        decreases v@.len() - i,
    {
        r.push(v[i].clone());
        proof {
            assert(v@.take(i + 1) =~= v@.take(i as int).push(v@[i as int]));
        }
        i = i + 1;
    }
    proof {
        assert(v@.take(v@.len() as int) =~= v@);
    }
    r
}

/// Opens a run for `config`: the first thing to do is to check every source
/// path.
pub fn start(config: Config) -> (r: (Session, Action))
    ensures
        r.0.inv(),
        r.0 matches Session::StattingSources { config: c } && c == config,
        r.1 matches Action::StatSources { paths } && paths@ == config.paths@,
{
    let paths = clone_strings(&config.paths);
    (Session::StattingSources { config }, Action::StatSources { paths })
}

impl Session {
    /// Feeds the session the answer to its pending action; it hands back the
    /// next state and the next thing to do.
    pub fn step(self, event: Event) -> (r: (Session, Action))
        requires
            self.inv(),
            self.expects(&event),
        ensures
            r.0.inv(),
            step_spec(self, event, r.0, r.1),
    {
        match (self, event) {
            (Session::StattingSources { config }, Event::SourcesChecked { outcomes }) => {
                let fails = collect_source_failures(&config.paths, &outcomes);
                if fails.len() == 0 {
                    (Session::CreatingBuffer { config }, Action::CreateBuffer)
                } else {
                    (Session::Done, Action::Fail { error: Error::BadSources { errors: fails } })
                }
            },
            (Session::CreatingBuffer { config }, Event::BufferCreated { path }) => {
                let contents = render_contents(&config.paths);
                let buffer = path.clone();
                (
                    Session::WritingBuffer { config, buffer },
                    Action::WriteBuffer { buffer: path, contents },
                )
            },
            (
                Session::CreatingBuffer { config },
                Event::BufferCreateFailed { dir_path, error },
            ) => {
                (
                    Session::Done,
                    Action::Fail { error: Error::TempfileCreation { io_error: error, dir_path } },
                )
            },
            (Session::WritingBuffer { config, buffer }, Event::BufferWritten) => {
                let editor = config.editor.clone();
                let b = buffer.clone();
                (
                    Session::AwaitingEditor { config, buffer },
                    Action::RunEditor { editor, buffer: b },
                )
            },
            (Session::WritingBuffer { config, buffer }, Event::BufferWriteFailed { error }) => {
                (
                    Session::Done,
                    Action::Fail { error: Error::TempfileWrite { io_error: error, path: buffer } },
                )
            },
            (Session::AwaitingEditor { config, buffer }, Event::EditorExited { success, code }) => {
                if success {
                    let b = buffer.clone();
                    (
                        Session::ReadingBuffer { config, buffer },
                        Action::ReadBuffer { buffer: b },
                    )
                } else {
                    (Session::Done, Action::Fail { error: Error::EditorStatus { status: code } })
                }
            },
            (Session::AwaitingEditor { config, buffer }, Event::EditorSpawnFailed { error }) => {
                (
                    Session::Done,
                    Action::Fail {
                        error: Error::EditorInvocation {
                            io_error: error,
                            editor_command: config.editor,
                        },
                    },
                )
            },
            (Session::ReadingBuffer { config, buffer }, Event::BufferRead { text }) => {
                let lines = parse_lines(text.as_str());
                if lines.len() != config.paths.len() {
                    (
                        Session::Done,
                        Action::Fail {
                            error: Error::LineCount {
                                file_count: config.paths.len(),
                                line_count: lines.len(),
                            },
                        },
                    )
                } else {
                    let plan = make_plan(&config.paths, &lines);
                    if plan.len() == 0 {
                        (Session::Done, Action::Succeed { nothing_to_do: true })
                    } else {
                        let destinations = plan_destinations(&plan);
                        (
                            Session::CheckingDestinations { plan },
                            Action::StatDestinations { destinations },
                        )
                    }
                }
            },
            (Session::ReadingBuffer { config, buffer }, Event::BufferOpenFailed { error }) => {
                (
                    Session::Done,
                    Action::Fail { error: Error::TempfileOpen { io_error: error, path: buffer } },
                )
            },
            (Session::ReadingBuffer { config, buffer }, Event::BufferReadFailed { error }) => {
                (
                    Session::Done,
                    Action::Fail { error: Error::TempfileRead { io_error: error, path: buffer } },
                )
            },
            (Session::CheckingDestinations { plan }, Event::DestinationsChecked { outcomes }) => {
                let conflicts = collect_conflicts(&plan, &outcomes);
                if conflicts.len() == 0 {
                    let from = plan[0].0.clone();
                    let to = plan[0].1.clone();
                    (Session::Renaming { plan, next: 0 }, Action::DoRename { from, to })
                } else {
                    (
                        Session::Done,
                        Action::Fail { error: Error::BadDestinations { errors: conflicts } },
                    )
                }
            },
            (Session::Renaming { plan, next }, Event::Renamed) => {
                let len = plan.len();
                if next + 1 < len {
                    let from = plan[next + 1].0.clone();
                    let to = plan[next + 1].1.clone();
                    (
                        Session::Renaming { plan, next: next + 1 },
                        Action::DoRename { from, to },
                    )
                } else {
                    (Session::Done, Action::Succeed { nothing_to_do: false })
                }
            },
            (Session::Renaming { plan, next }, Event::RenameFailed { error }) => {
                let from = plan[next].0.clone();
                let to = plan[next].1.clone();
                (
                    Session::Done,
                    Action::Fail { error: Error::Rename { io_error: error, from, to } },
                )
            },
            _ => { unreached() },
        }
    }
}

/// Source validation: when at least one source check failed, the run fails
/// with `BadSources` carrying every failing path with its error, and the
/// session is finished — in particular, no buffer is ever created.
pub proof fn lemma_bad_sources_fail(
    config: Config,
    outcomes: Vec<Option<String>>,
    post: Session,
    act: Action,
)
    requires
        outcomes@.len() == config.paths@.len(),
        step_spec(
            Session::StattingSources { config },
            Event::SourcesChecked { outcomes },
            post,
            act,
        ),
        !(forall|k: int| 0 <= k < outcomes@.len() ==> outcomes@[k] is None),
    ensures
        post is Done,
        act matches Action::Fail { error: Error::BadSources { errors } } && pair_views(errors@)
            == source_failures(views_of(config.paths@), outcomes@, config.paths@.len() as int)
            && errors@.len() > 0,
        forall|e: Event| !(#[trigger] post.expects(&e)),
{
    lemma_source_failures_empty(views_of(config.paths@), outcomes@, outcomes@.len() as int);
}

/// The temporary buffer is only ever requested right after every source check
/// came back clean: sources are validated before anything is created.
pub proof fn lemma_create_buffer_needs_clean_sources(
    pre: Session,
    event: Event,
    post: Session,
    act: Action,
)
    requires
        pre.expects(&event),
        step_spec(pre, event, post, act),
        act is CreateBuffer,
    ensures
        pre is StattingSources,
        event matches Event::SourcesChecked { outcomes } && forall|k: int|
            0 <= k < outcomes@.len() ==> outcomes@[k] is None,
{
    match (pre, event) {
        (Session::StattingSources { config }, Event::SourcesChecked { outcomes }) => {
            lemma_source_failures_empty(
                views_of(config.paths@),
                outcomes@,
                outcomes@.len() as int,
            );
        },
        _ => {},
    }
}

/// No-op short-circuit: when the edited lines are exactly the original paths,
/// the run succeeds at once, with notice, and no rename is ever issued.
pub proof fn lemma_noop_succeeds(
    config: Config,
    buffer: String,
    text: String,
    post: Session,
    act: Action,
)
    requires
        step_spec(
            Session::ReadingBuffer { config, buffer },
            Event::BufferRead { text },
            post,
            act,
        ),
        split_lines(text@) == views_of(config.paths@),
    ensures
        post is Done,
        act matches Action::Succeed { nothing_to_do: true },
{
    lemma_noop_plan_empty(
        views_of(config.paths@),
        split_lines(text@),
        config.paths@.len() as int,
    );
}

/// Count invariant: when the edited text does not have exactly one line per
/// path, the run fails with `LineCount` carrying both counts, and the session
/// is finished — no rename is ever issued.
pub proof fn lemma_line_count_mismatch_fails(
    config: Config,
    buffer: String,
    text: String,
    post: Session,
    act: Action,
)
    requires
        step_spec(
            Session::ReadingBuffer { config, buffer },
            Event::BufferRead { text },
            post,
            act,
        ),
        split_lines(text@).len() != config.paths@.len(),
    ensures
        post is Done,
        act matches Action::Fail { error: Error::LineCount { file_count, line_count } }
            && file_count == config.paths@.len() && line_count == split_lines(text@).len(),
        forall|e: Event| !(#[trigger] post.expects(&e)),
{
}

/// Pre-flight destination check: when at least one destination is already
/// occupied or could not be checked, the run fails with `BadDestinations`
/// carrying every conflict, and the session is finished — not a single
/// rename of the plan is issued, conflicting or not.
pub proof fn lemma_bad_destinations_fail(
    plan: Vec<(String, String)>,
    outcomes: Vec<DestStat>,
    post: Session,
    act: Action,
)
    requires
        plan@.len() > 0,
        outcomes@.len() == plan@.len(),
        step_spec(
            Session::CheckingDestinations { plan },
            Event::DestinationsChecked { outcomes },
            post,
            act,
        ),
        !(forall|k: int| 0 <= k < outcomes@.len() ==> outcomes@[k] is NotFound),
    ensures
        post is Done,
        act matches Action::Fail { error: Error::BadDestinations { errors } } && conflict_views(
            errors@,
        ) == conflicts_of(destinations_of(pair_views(plan@)), outcomes@, plan@.len() as int)
            && errors@.len() > 0,
        forall|e: Event| !(#[trigger] post.expects(&e)),
{
    lemma_conflicts_empty(destinations_of(pair_views(plan@)), outcomes@, outcomes@.len() as int);
}

/// A rename is only ever issued once every destination of the plan checked
/// out clear, or as the successor of an earlier rename of that same plan:
/// destination validation is all-or-nothing and comes before execution.
pub proof fn lemma_rename_needs_clean_destinations(
    pre: Session,
    event: Event,
    post: Session,
    act: Action,
)
    requires
        pre.inv(),
        pre.expects(&event),
        step_spec(pre, event, post, act),
        act is DoRename,
    ensures
        (pre matches Session::CheckingDestinations { plan } && event matches
            Event::DestinationsChecked { outcomes } && forall|k: int|
            0 <= k < outcomes@.len() ==> outcomes@[k] is NotFound) || (pre matches
        Session::Renaming { .. } && event is Renamed),
{
    match (pre, event) {
        (Session::CheckingDestinations { plan }, Event::DestinationsChecked { outcomes }) => {
            lemma_conflicts_empty(
                destinations_of(pair_views(plan@)),
                outcomes@,
                outcomes@.len() as int,
            );
        },
        _ => {},
    }
}

/// No rollback: a failed rename ends the run at once with the failing pair
/// and its error, and the finished session accepts no further event — in
/// particular it never asks to undo the renames already performed.
pub proof fn lemma_rename_failure_is_final(
    plan: Vec<(String, String)>,
    next: usize,
    error: String,
    post: Session,
    act: Action,
)
    requires
        (next as int) < plan@.len(),
        step_spec(
            Session::Renaming { plan, next },
            Event::RenameFailed { error },
            post,
            act,
        ),
    ensures
        post is Done,
        act matches Action::Fail { error: Error::Rename { io_error, from, to } } && io_error
            == error && from == plan@[next as int].0 && to == plan@[next as int].1,
        forall|e: Event| !(#[trigger] post.expects(&e)),
{
}

} // verus!
