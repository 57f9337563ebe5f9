//! One synchronization pass, as a state machine. The machine says what to do
//! next: fetch a document from the source, publish one to the destination, or
//! stop. Whoever drives it does that and hands back what came of it.

use crate::config::{mask_document, masked_document, rules_view, IgnoreItem, MaskRule};
use crate::document::{Doc, DocumentNode};
use crate::error::{ErrorKind, SyncError, SyncErrorView};
use crate::yaml::{
    document_of, parse_document, render_document, text_of, text_view, yaml_parsed, yaml_rendered,
};
use vstd::prelude::*;

verus! {

/// How the attempt to copy one document ended.
#[derive(Clone, Copy, Debug, PartialEq, Eq, Structural)]
pub enum SyncStatus {
    /// The document was published to the destination.
    Synced,
    /// The document was left out. No step of a pass ends a document so.
    Skipped,
    /// The document met an error on its way.
    Failed,
}

/// The result for one document.
#[derive(Debug, PartialEq, Eq)]
pub struct SyncOutcome {
    pub data_id: String,
    pub status: SyncStatus,
    /// The error of a document that failed.
    pub error: Option<SyncError>,
}

/// What the driver is asked to do.
#[derive(Debug, PartialEq, Eq)]
pub enum SyncAction {
    /// Fetch the document from the source.
    Fetch { data_id: String, group: String },
    /// Publish the content to the destination.
    Publish { data_id: String, group: String, content: String, config_type: String },
    /// Stop: every document has its outcome.
    Finish,
}

/// What came of the action that the driver was asked for.
#[derive(Debug)]
pub enum SyncEvent {
    /// The text of the document, or the words of the error that kept it away.
    Fetched(Result<String, String>),
    /// The acknowledgment of the destination, or the words of its error.
    Published(Result<bool, String>),
}

/// A pass in progress.
#[derive(Debug)]
pub struct SyncRun {
    /// The documents to copy, in their order.
    ids: Vec<String>,
    rules: Vec<IgnoreItem>,
    /// One outcome for each document that is done.
    outcomes: Vec<SyncOutcome>,
    /// The content that waits to be published for the document in progress.
    pending: Option<String>,
}

/// An outcome as a mathematical value.
pub struct OutcomeView {
    pub data_id: Seq<char>,
    pub status: SyncStatus,
    pub error: Option<SyncErrorView>,
}

/// An action as a mathematical value.
pub enum ActionView {
    Fetch { data_id: Seq<char>, group: Seq<char> },
    Publish { data_id: Seq<char>, group: Seq<char>, content: Seq<char>, config_type: Seq<char> },
    Finish,
}

/// An event as a mathematical value.
pub enum EventView {
    Fetched(Result<Seq<char>, Seq<char>>),
    Published(Result<bool, Seq<char>>),
}

/// A pass in progress as a mathematical value: the documents to copy, the
/// rule table, the outcomes so far, one for each document that is done, and
/// the content that waits to be published for the document in progress.
pub struct RunView {
    pub ids: Seq<Seq<char>>,
    pub rules: Seq<MaskRule>,
    pub outcomes: Seq<OutcomeView>,
    pub pending: Option<Seq<char>>,
}

impl View for SyncOutcome {
    type V = OutcomeView;

    open spec fn view(&self) -> OutcomeView {
        OutcomeView {
            data_id: self.data_id@,
            status: self.status,
            error: match self.error {
                Some(error) => Some(error@),
                None => None,
            },
        }
    }
}

impl View for SyncAction {
    type V = ActionView;

    open spec fn view(&self) -> ActionView {
        match self {
            SyncAction::Fetch { data_id, group } => ActionView::Fetch {
                data_id: data_id@,
                group: group@,
            },
            SyncAction::Publish { data_id, group, content, config_type } => ActionView::Publish {
                data_id: data_id@,
                group: group@,
                content: content@,
                config_type: config_type@,
            },
            SyncAction::Finish => ActionView::Finish,
        }
    }
}

impl View for SyncEvent {
    type V = EventView;

    open spec fn view(&self) -> EventView {
        match self {
            SyncEvent::Fetched(Ok(text)) => EventView::Fetched(Ok(text@)),
            SyncEvent::Fetched(Err(words)) => EventView::Fetched(Err(words@)),
            SyncEvent::Published(Ok(ack)) => EventView::Published(Ok(*ack)),
            SyncEvent::Published(Err(words)) => EventView::Published(Err(words@)),
        }
    }
}

/// The identifiers that a sequence of texts stands for.
pub open spec fn ids_view(ids: Seq<String>) -> Seq<Seq<char>> {
    Seq::new(ids.len(), |i: int| ids[i]@)
}

/// The outcomes that a sequence of outcomes stands for.
pub open spec fn outcomes_view(outcomes: Seq<SyncOutcome>) -> Seq<OutcomeView> {
    Seq::new(outcomes.len(), |i: int| outcomes[i]@)
}

impl View for SyncRun {
    type V = RunView;

    closed spec fn view(&self) -> RunView {
        RunView {
            ids: ids_view(self.ids@),
            rules: rules_view(self.rules@),
            outcomes: outcomes_view(self.outcomes@),
            pending: match self.pending {
                Some(content) => Some(content@),
                None => None,
            },
        }
    }
}

/// The group in which every document is fetched and published.
pub open spec fn default_group() -> Seq<char> {
    "DEFAULT_GROUP"@
}

/// The format that the destination is told of.
pub open spec fn default_config_type() -> Seq<char> {
    "yaml"@
}

/// The outcome of a document that was published.
pub open spec fn synced(data_id: Seq<char>) -> OutcomeView {
    OutcomeView { data_id, status: SyncStatus::Synced, error: None }
}

/// The outcome of a document that met an error.
pub open spec fn failed(data_id: Seq<char>, error: SyncErrorView) -> OutcomeView {
    OutcomeView { data_id, status: SyncStatus::Failed, error: Some(error) }
}

/// The content to publish for the document `data_id` whose text was fetched:
/// the text is read, the rule table is applied, and what is left is written
/// again. An error where the text cannot be read or the rest not written.
pub open spec fn prepared(rules: Seq<MaskRule>, data_id: Seq<char>, text: Seq<char>) -> Result<
    Seq<char>,
    SyncErrorView,
> {
    match document_of(yaml_parsed(text)) {
        Ok(fields) => text_of(yaml_rendered(Doc::Mapping(masked_document(rules, data_id, fields)))),
        Err(error) => Err(error),
    }
}

/// A pass over `ids` before anything was done.
pub open spec fn start(ids: Seq<Seq<char>>, rules: Seq<MaskRule>) -> RunView {
    RunView { ids, rules, outcomes: Seq::empty(), pending: None }
}

/// What the driver is to do in a state: stop where every document has its
/// outcome; publish the content that waits; else fetch the next document.
pub open spec fn next_action(run: RunView) -> ActionView {
    if run.outcomes.len() >= run.ids.len() {
        ActionView::Finish
    } else {
        let data_id = run.ids[run.outcomes.len() as int];
        match run.pending {
            Some(content) => ActionView::Publish {
                data_id,
                group: default_group(),
                content,
                config_type: default_config_type(),
            },
            None => ActionView::Fetch { data_id, group: default_group() },
        }
    }
}

/// The state with one more outcome, and nothing waiting.
pub open spec fn recorded(run: RunView, outcome: OutcomeView) -> RunView {
    RunView { outcomes: run.outcomes.push(outcome), pending: None, ..run }
}

/// The state after an event. A fetch that failed, a text that cannot be
/// prepared and a publication that failed each end the document in progress
/// as failed; a publication that went through ends it as synced; a text that
/// was prepared waits to be published. An event that does not answer the
/// action of the state changes nothing.
pub open spec fn step(run: RunView, event: EventView) -> RunView {
    if run.outcomes.len() >= run.ids.len() {
        run
    } else {
        let data_id = run.ids[run.outcomes.len() as int];
        match (run.pending, event) {
            (None, EventView::Fetched(Ok(text))) => match prepared(run.rules, data_id, text) {
                Ok(content) => RunView { pending: Some(content), ..run },
                Err(error) => recorded(run, failed(data_id, error)),
            },
            (None, EventView::Fetched(Err(words))) => recorded(
                run,
                failed(data_id, SyncErrorView { kind: ErrorKind::FetchFailure, detail: words }),
            ),
            (Some(_), EventView::Published(Ok(_))) => recorded(run, synced(data_id)),
            (Some(_), EventView::Published(Err(words))) => recorded(
                run,
                failed(data_id, SyncErrorView { kind: ErrorKind::PublishFailure, detail: words }),
            ),
            _ => run,
        }
    }
}

/// What holds of every state of a pass: no more outcomes than documents, the
/// outcomes stand in the order of the documents, each for its own, and
/// content waits only while a document is in progress.
pub open spec fn settled(run: RunView) -> bool {
    &&& run.outcomes.len() <= run.ids.len()
    &&& run.pending is Some ==> run.outcomes.len() < run.ids.len()
    &&& forall|i: int|
        0 <= i < run.outcomes.len() ==> (#[trigger] run.outcomes[i]).data_id == run.ids[i]
}

/// The outcome of one document, given what its fetch and its publication
/// come to. Nothing else bears on it.
pub open spec fn document_outcome(
    rules: Seq<MaskRule>,
    data_id: Seq<char>,
    fetch: Result<Seq<char>, Seq<char>>,
    publish: Result<bool, Seq<char>>,
) -> OutcomeView {
    match fetch {
        Err(words) => failed(
            data_id,
            SyncErrorView { kind: ErrorKind::FetchFailure, detail: words },
        ),
        Ok(text) => match prepared(rules, data_id, text) {
            Err(error) => failed(data_id, error),
            Ok(_) => match publish {
                Ok(_) => synced(data_id),
                Err(words) => failed(
                    data_id,
                    SyncErrorView { kind: ErrorKind::PublishFailure, detail: words },
                ),
            },
        },
    }
}

/// The state in which a pass ends when it is driven from `run` on, where the
/// fetch of the document at place `i` comes to `fetches[i]` and its
/// publication, if it is asked for, to `publishes[i]`.
pub open spec fn driven(
    run: RunView,
    fetches: Seq<Result<Seq<char>, Seq<char>>>,
    publishes: Seq<Result<bool, Seq<char>>>,
) -> RunView
    decreases run.ids.len() - run.outcomes.len(), (if run.pending is Some {
        0nat
    } else {
        1nat
    }),
{
    let at = run.outcomes.len() as int;
    if at >= run.ids.len() {
        run
    } else if run.pending is Some {
        driven(step(run, EventView::Published(publishes[at])), fetches, publishes)
    } else {
        driven(step(run, EventView::Fetched(fetches[at])), fetches, publishes)
    }
}

/// An event leaves the documents and the rules as they were, keeps every
/// outcome that was there, and adds at most one, for the document in progress.
pub proof fn step_adds_one_outcome(run: RunView, event: EventView)
    requires
        settled(run),
    ensures
        settled(step(run, event)),
        step(run, event).ids == run.ids,
        step(run, event).rules == run.rules,
        step(run, event).outcomes == run.outcomes || (exists|outcome: OutcomeView|
            outcome.data_id == run.ids[run.outcomes.len() as int] && #[trigger] run.outcomes.push(
                outcome,
            ) == step(run, event).outcomes),
{
    let after = step(run, event);
    if after.outcomes != run.outcomes {
        let outcome = after.outcomes.last();
        assert(run.outcomes.push(outcome) == after.outcomes);
    }
}

/// Whether the outcomes so far are those of their documents, and the content
/// that waits is that of the document in progress.
pub open spec fn on_course(
    run: RunView,
    fetches: Seq<Result<Seq<char>, Seq<char>>>,
    publishes: Seq<Result<bool, Seq<char>>>,
) -> bool {
    &&& settled(run)
    &&& forall|i: int|
        0 <= i < run.outcomes.len() ==> #[trigger] run.outcomes[i] == document_outcome(
            run.rules,
            run.ids[i],
            fetches[i],
            publishes[i],
        )
    &&& run.pending matches Some(content) ==> {
        &&& fetches[run.outcomes.len() as int] matches Ok(text)
        &&& prepared(run.rules, run.ids[run.outcomes.len() as int], text) == Ok::<
            Seq<char>,
            SyncErrorView,
        >(content)
    }
}

proof fn driven_stays_on_course(
    run: RunView,
    fetches: Seq<Result<Seq<char>, Seq<char>>>,
    publishes: Seq<Result<bool, Seq<char>>>,
)
    requires
        on_course(run, fetches, publishes),
    ensures
        on_course(driven(run, fetches, publishes), fetches, publishes),
        driven(run, fetches, publishes).ids == run.ids,
        driven(run, fetches, publishes).rules == run.rules,
        driven(run, fetches, publishes).outcomes.len() == run.ids.len(),
    decreases run.ids.len() - run.outcomes.len(), (if run.pending is Some {
        0nat
    } else {
        1nat
    }),
{
    let at = run.outcomes.len() as int;
    if at < run.ids.len() {
        let event = if run.pending is Some {
            EventView::Published(publishes[at])
        } else {
            EventView::Fetched(fetches[at])
        };
        let after = step(run, event);
        assert(on_course(after, fetches, publishes)) by {
            assert forall|i: int| 0 <= i < after.outcomes.len() implies #[trigger] after.outcomes[i]
                == document_outcome(after.rules, after.ids[i], fetches[i], publishes[i]) by {
                if i < at {
                    assert(after.outcomes[i] == run.outcomes[i]);
                }
            }
        }
        driven_stays_on_course(after, fetches, publishes);
    }
}

/// A pass that is driven to its end has one outcome for each document, in the
/// order of the documents, and the outcome of a document is what its own
/// fetch and its own publication make it: what comes of one document does
/// not bear on another.
pub proof fn every_document_has_its_outcome(
    ids: Seq<Seq<char>>,
    rules: Seq<MaskRule>,
    fetches: Seq<Result<Seq<char>, Seq<char>>>,
    publishes: Seq<Result<bool, Seq<char>>>,
)
    requires
        fetches.len() == ids.len(),
        publishes.len() == ids.len(),
    ensures
        next_action(driven(start(ids, rules), fetches, publishes)) == ActionView::Finish,
        driven(start(ids, rules), fetches, publishes).outcomes == Seq::new(
            ids.len(),
            |i: int| document_outcome(rules, ids[i], fetches[i], publishes[i]),
        ),
{
    let begin = start(ids, rules);
    driven_stays_on_course(begin, fetches, publishes);
    let end = driven(begin, fetches, publishes);
    assert(end.outcomes =~= Seq::new(
        ids.len(),
        |i: int| document_outcome(rules, ids[i], fetches[i], publishes[i]),
    ));
}

/// The content to publish for the document `data_id`, made of the text that
/// was fetched.
pub fn prepare(rules: &Vec<IgnoreItem>, data_id: &str, text: &str) -> (content: Result<
    String,
    SyncError,
>)
    ensures
        text_view(content) == prepared(rules_view(rules@), data_id@, text@),
{
    match parse_document(text) {
        Ok(document) => {
            let published = mask_document(rules, data_id, document);
            render_document(&DocumentNode::Mapping(published))
        },
        Err(error) => Err(error),
    }
}

impl SyncRun {
    #[verifier::type_invariant]
    spec fn is_settled(self) -> bool {
        settled(self@)
    }

    /// A pass over the documents `ids`, in their order, under the rule table
    /// `rules`.
    pub fn new(ids: Vec<String>, rules: Vec<IgnoreItem>) -> (run: SyncRun)
        ensures
            run@ == start(ids_view(ids@), rules_view(rules@)),
    {
        let run = SyncRun { ids, rules, outcomes: Vec::new(), pending: None };
        assert(run@.outcomes =~= Seq::empty());
        run
    }

    /// What the driver is to do now.
    pub fn action(&self) -> (action: SyncAction)
        ensures
            action@ == next_action(self@),
            settled(self@),
    {
        proof {
            use_type_invariant(self);
        }
        let at = self.outcomes.len();
        if at >= self.ids.len() {
            SyncAction::Finish
        } else {
            let data_id = self.ids[at].clone();
            let group = "DEFAULT_GROUP".to_owned();
            match &self.pending {
                Some(content) => SyncAction::Publish {
                    data_id,
                    group,
                    content: content.clone(),
                    config_type: "yaml".to_owned(),
                },
                None => SyncAction::Fetch { data_id, group },
            }
        }
    }

    /// Takes in what came of the action.
    pub fn step(self, event: SyncEvent) -> (next: SyncRun)
        ensures
            next@ == step(self@, event@),
    {
        proof {
            use_type_invariant(&self);
            step_adds_one_outcome(self@, event@);
        }
        let ghost before = self@;
        let at = self.outcomes.len();
        if at >= self.ids.len() {
            return self;
        }
        let SyncRun { ids, rules, outcomes, pending } = self;
        let mut outcomes = outcomes;
        let ghost old_outcomes = outcomes@;
        match (pending, event) {
            (None, SyncEvent::Fetched(Ok(text))) => {
                match prepare(&rules, ids[at].as_str(), text.as_str()) {
                    Ok(content) => {
                        let next = SyncRun { ids, rules, outcomes, pending: Some(content) };
                        next
                    },
                    Err(error) => {
                        outcomes.push(
                            SyncOutcome {
                                data_id: ids[at].clone(),
                                status: SyncStatus::Failed,
                                error: Some(error),
                            },
                        );
                        assert(outcomes_view(outcomes@) =~= outcomes_view(old_outcomes).push(
                            failed(before.ids[at as int], error@),
                        ));
                        SyncRun { ids, rules, outcomes, pending: None }
                    },
                }
            },
            (None, SyncEvent::Fetched(Err(words))) => {
                let error = SyncError { kind: ErrorKind::FetchFailure, detail: words };
                outcomes.push(
                    SyncOutcome {
                        data_id: ids[at].clone(),
                        status: SyncStatus::Failed,
                        error: Some(error),
                    },
                );
                assert(outcomes_view(outcomes@) =~= outcomes_view(old_outcomes).push(
                    failed(before.ids[at as int], error@),
                ));
                SyncRun { ids, rules, outcomes, pending: None }
            },
            (Some(_), SyncEvent::Published(Ok(_))) => {
                outcomes.push(
                    SyncOutcome { data_id: ids[at].clone(), status: SyncStatus::Synced, error: None },
                );
                assert(outcomes_view(outcomes@) =~= outcomes_view(old_outcomes).push(
                    synced(before.ids[at as int]),
                ));
                SyncRun { ids, rules, outcomes, pending: None }
            },
            (Some(_), SyncEvent::Published(Err(words))) => {
                let error = SyncError { kind: ErrorKind::PublishFailure, detail: words };
                outcomes.push(
                    SyncOutcome {
                        data_id: ids[at].clone(),
                        status: SyncStatus::Failed,
                        error: Some(error),
                    },
                );
                assert(outcomes_view(outcomes@) =~= outcomes_view(old_outcomes).push(
                    failed(before.ids[at as int], error@),
                ));
                SyncRun { ids, rules, outcomes, pending: None }
            },
            (pending, _) => SyncRun { ids, rules, outcomes, pending },
        }
    }

    /// The outcomes so far: one for each document that is done, in the order
    /// of the documents.
    pub fn outcomes(self) -> (outcomes: Vec<SyncOutcome>)
        ensures
            outcomes_view(outcomes@) == self@.outcomes,
            settled(self@),
    {
        proof {
            use_type_invariant(&self);
        }
        self.outcomes
    }
}

} // verus!
