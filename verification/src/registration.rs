//! The course of a run: which step comes next, what is printed, and what is said
//! when a step fails.
//!
//! A [`Registration`] asks for one step at a time. Whoever performs the step reports
//! its outcome, and is told what to print and what to do next.

use vstd::prelude::*;

use crate::options::{Options, OptionsView};
use crate::paths::load_paths;
use crate::props::catalog_props;
use crate::report::{committed, files_built, paths_loaded, table_loaded};
use crate::table_id::{parse_table_id, TableId, TableIdError, TableIdView};

verus! {

/// The step that a run waits for, with what later steps need.
#[derive(Debug)]
enum Stage {
    PathsFile,
    Catalog { paths: Vec<String> },
    Table { paths: Vec<String> },
    DataFiles,
    Append,
    Snapshot,
}

/// A run that waits for the outcome of a step.
#[derive(Debug)]
pub struct Registration {
    options: Options,
    table: TableId,
    stage: Stage,
}

/// A step to perform.
#[derive(Debug, PartialEq, Eq)]
pub enum Action {
    /// Read the file with the list of paths.
    ReadPathsFile,
    /// Build the REST catalog with these properties.
    BuildCatalog { props: Vec<(String, String)> },
    /// Load the table from the catalog.
    LoadTable { table: TableId },
    /// Describe the Parquet files as data files of the table.
    ConvertFiles { paths: Vec<String> },
    /// Add an append of the data files to a transaction on the table.
    ApplyAppend { check_duplicate: bool },
    /// Commit the transaction.
    Commit,
}

/// The outcome of a step.
#[derive(Debug, PartialEq, Eq)]
pub enum Event {
    /// The file with the list of paths holds this text.
    PathsFileRead { text: String },
    /// The catalog is built.
    CatalogBuilt,
    /// The table is loaded and has this current snapshot.
    TableLoaded { snapshot: Option<i64> },
    /// So many data files were described in this time.
    FilesConverted { count: usize, elapsed: String },
    /// The append is in the transaction.
    AppendApplied,
    /// The transaction is committed; the table has this current snapshot, and the
    /// append and the commit took this time.
    Committed { snapshot: Option<i64>, elapsed: String },
    /// The step failed.
    Failed,
}

/// What follows on an outcome.
#[derive(Debug)]
pub enum Next {
    /// Perform the step and report to the run.
    Perform { registration: Registration, action: Action },
    /// The files are registered.
    Done,
    /// The run failed; the text says at what.
    Stop { context: String },
}

/// The answer to an outcome: a line to print, and what follows.
#[derive(Debug)]
pub struct Reply {
    pub printed: Option<String>,
    pub next: Next,
}

/// What a stage stands for.
#[verifier::ext_equal]
pub enum StageView {
    PathsFile,
    Catalog { paths: Seq<Seq<char>> },
    Table { paths: Seq<Seq<char>> },
    DataFiles,
    Append,
    Snapshot,
}

/// What a [`Registration`] stands for.
#[verifier::ext_equal]
pub struct RegistrationView {
    pub options: OptionsView,
    pub table: TableIdView,
    pub stage: StageView,
}

/// What an [`Action`] stands for.
#[verifier::ext_equal]
pub enum ActionView {
    ReadPathsFile,
    BuildCatalog { props: Seq<(Seq<char>, Seq<char>)> },
    LoadTable { table: TableIdView },
    ConvertFiles { paths: Seq<Seq<char>> },
    ApplyAppend { check_duplicate: bool },
    Commit,
}

/// What an [`Event`] stands for.
#[verifier::ext_equal]
pub enum EventView {
    PathsFileRead { text: Seq<char> },
    CatalogBuilt,
    TableLoaded { snapshot: Option<i64> },
    FilesConverted { count: usize, elapsed: Seq<char> },
    AppendApplied,
    Committed { snapshot: Option<i64>, elapsed: Seq<char> },
    Failed,
}

/// What [`Next`] stands for.
#[verifier::ext_equal]
pub enum NextView {
    Perform { registration: RegistrationView, action: ActionView },
    Done,
    Stop { context: Seq<char> },
}

/// What a [`Reply`] stands for.
#[verifier::ext_equal]
pub struct ReplyView {
    pub printed: Option<Seq<char>>,
    pub next: NextView,
}

impl View for Stage {
    type V = StageView;

    closed spec fn view(&self) -> StageView {
        match self {
            Stage::PathsFile => StageView::PathsFile,
            Stage::Catalog { paths } => StageView::Catalog { paths: paths.deep_view() },
            Stage::Table { paths } => StageView::Table { paths: paths.deep_view() },
            Stage::DataFiles => StageView::DataFiles,
            Stage::Append => StageView::Append,
            Stage::Snapshot => StageView::Snapshot,
        }
    }
}

impl View for Registration {
    type V = RegistrationView;

    closed spec fn view(&self) -> RegistrationView {
        RegistrationView { options: self.options@, table: self.table@, stage: self.stage@ }
    }
}

impl View for Action {
    type V = ActionView;

    open spec fn view(&self) -> ActionView {
        match self {
            Action::ReadPathsFile => ActionView::ReadPathsFile,
            Action::BuildCatalog { props } => ActionView::BuildCatalog { props: props.deep_view() },
            Action::LoadTable { table } => ActionView::LoadTable { table: table@ },
            Action::ConvertFiles { paths } => ActionView::ConvertFiles { paths: paths.deep_view() },
            Action::ApplyAppend { check_duplicate } => ActionView::ApplyAppend {
                check_duplicate: *check_duplicate,
            },
            Action::Commit => ActionView::Commit,
        }
    }
}

impl View for Event {
    type V = EventView;

    open spec fn view(&self) -> EventView {
        match self {
            Event::PathsFileRead { text } => EventView::PathsFileRead { text: text@ },
            Event::CatalogBuilt => EventView::CatalogBuilt,
            Event::TableLoaded { snapshot } => EventView::TableLoaded { snapshot: *snapshot },
            Event::FilesConverted { count, elapsed } => EventView::FilesConverted {
                count: *count,
                elapsed: elapsed@,
            },
            Event::AppendApplied => EventView::AppendApplied,
            Event::Committed { snapshot, elapsed } => EventView::Committed {
                snapshot: *snapshot,
                elapsed: elapsed@,
            },
            Event::Failed => EventView::Failed,
        }
    }
}

impl View for Next {
    type V = NextView;

    open spec fn view(&self) -> NextView {
        match self {
            Next::Perform { registration, action } => NextView::Perform {
                registration: registration@,
                action: action@,
            },
            Next::Done => NextView::Done,
            Next::Stop { context } => NextView::Stop { context: context@ },
        }
    }
}

impl View for Reply {
    type V = ReplyView;

    open spec fn view(&self) -> ReplyView {
        ReplyView { printed: self.printed.deep_view(), next: self.next@ }
    }
}

impl ReplyView {
    /// An end of the run, with nothing to print.
    pub open spec fn stop(context: Seq<char>) -> ReplyView {
        ReplyView { printed: None, next: NextView::Stop { context } }
    }
}

impl RegistrationView {
    /// The run before its first step.
    pub open spec fn first(options: OptionsView, table: TableIdView) -> RegistrationView {
        RegistrationView { options, table, stage: StageView::PathsFile }
    }

    /// Whether the event is an outcome of the step that the run waits for.
    pub open spec fn accepts(self, event: EventView) -> bool {
        match event {
            EventView::PathsFileRead { .. } => self.stage is PathsFile,
            EventView::CatalogBuilt => self.stage is Catalog,
            EventView::TableLoaded { .. } => self.stage is Table,
            EventView::FilesConverted { .. } => self.stage is DataFiles,
            EventView::AppendApplied => self.stage is Append,
            EventView::Committed { .. } => self.stage is Snapshot,
            EventView::Failed => true,
        }
    }

    /// What is said if the step that the run waits for fails.
    pub open spec fn failure_text(self) -> Seq<char> {
        match self.stage {
            StageView::PathsFile => "reading --paths-file "@ + self.options.paths_file,
            StageView::Catalog { .. } => "building REST catalog"@,
            StageView::Table { .. } => "loading table "@ + self.table.dotted(),
            StageView::DataFiles => "converting parquet files to data files"@,
            StageView::Append => "applying FastAppendAction"@,
            StageView::Snapshot => "committing transaction"@,
        }
    }

    /// The run goes on to another stage.
    pub open spec fn proceed(
        self,
        printed: Option<Seq<char>>,
        stage: StageView,
        action: ActionView,
    ) -> ReplyView {
        ReplyView {
            printed,
            next: NextView::Perform {
                registration: RegistrationView { stage, ..self },
                action,
            },
        }
    }

    /// The answer to an outcome that the run accepts.
    pub open spec fn reply(self, event: EventView) -> ReplyView {
        match event {
            EventView::PathsFileRead { text } => {
                let paths = crate::paths::paths_of(text);
                if paths.len() == 0 {
                    ReplyView::stop(crate::paths::no_paths_text(self.options.paths_file))
                } else {
                    self.proceed(
                        Some(
                            crate::report::paths_loaded_text(paths.len(), self.options.paths_file),
                        ),
                        StageView::Catalog { paths },
                        ActionView::BuildCatalog { props: crate::props::props_of(self.options) },
                    )
                }
            },
            EventView::CatalogBuilt => self.proceed(
                None,
                StageView::Table { paths: self.stage->Catalog_paths },
                ActionView::LoadTable { table: self.table },
            ),
            EventView::TableLoaded { snapshot } => self.proceed(
                Some(crate::report::table_loaded_text(self.table.dotted(), snapshot)),
                StageView::DataFiles,
                ActionView::ConvertFiles { paths: self.stage->Table_paths },
            ),
            EventView::FilesConverted { count, elapsed } => self.proceed(
                Some(crate::report::files_built_text(count as nat, elapsed)),
                StageView::Append,
                ActionView::ApplyAppend { check_duplicate: !self.options.skip_duplicate_check },
            ),
            EventView::AppendApplied => self.proceed(
                None,
                StageView::Snapshot,
                ActionView::Commit,
            ),
            EventView::Committed { snapshot, elapsed } => ReplyView {
                printed: Some(crate::report::committed_text(snapshot, elapsed)),
                next: NextView::Done,
            },
            EventView::Failed => ReplyView::stop(self.failure_text()),
        }
    }
}

/// Starts a run. The table identifier is read before anything else is done.
pub fn begin(options: Options) -> (r: Result<(Registration, Action), TableIdError>)
    ensures
        match r {
            Ok((registration, action)) => {
                &&& crate::table_id::table_of(options@.table_id) is Some
                &&& registration@ == RegistrationView::first(
                    options@,
                    crate::table_id::table_of(options@.table_id)->0,
                )
                &&& action@ == ActionView::ReadPathsFile
            },
            Err(_) => crate::table_id::table_of(options@.table_id) is None,
        },
        r is Ok <==> options.table_id@.contains('.'),
        r matches Ok((registration, action)) ==> {
            &&& action is ReadPathsFile
            &&& registration@ == RegistrationView::first(
                options@,
                crate::table_id::table_of(options.table_id@)->0,
            )
        },
{
    match parse_table_id(options.table_id.as_str()) {
        Ok(table) => Ok(
            (Registration { options, table, stage: Stage::PathsFile }, Action::ReadPathsFile),
        ),
        Err(e) => Err(e),
    }
}

impl Registration {
    /// Whether `event` is an outcome of the step that the run waits for.
    pub fn accepts(&self, event: &Event) -> (b: bool)
        ensures
            b == self@.accepts(event@),
    {
        match (event, &self.stage) {
            (Event::PathsFileRead { .. }, Stage::PathsFile) => true,
            (Event::CatalogBuilt, Stage::Catalog { .. }) => true,
            (Event::TableLoaded { .. }, Stage::Table { .. }) => true,
            (Event::FilesConverted { .. }, Stage::DataFiles) => true,
            (Event::AppendApplied, Stage::Append) => true,
            (Event::Committed { .. }, Stage::Snapshot) => true,
            (Event::Failed, _) => true,
            _ => false,
        }
    }

    /// What is said if the step that the run waits for fails.
    fn failure(&self) -> (context: String)
        ensures
            context@ == self@.failure_text(),
    {
        match &self.stage {
            Stage::PathsFile => {
                let mut context = "reading --paths-file ".to_string();
                context.append(self.options.paths_file.as_str());
                context
            },
            Stage::Catalog { .. } => "building REST catalog".to_string(),
            Stage::Table { .. } => {
                let mut context = "loading table ".to_string();
                let dotted = self.table.dotted();
                context.append(dotted.as_str());
                context
            },
            Stage::DataFiles => "converting parquet files to data files".to_string(),
            Stage::Append => "applying FastAppendAction".to_string(),
            Stage::Snapshot => "committing transaction".to_string(),
        }
    }

    /// Takes the outcome of the step that the run waits for.
    pub fn advance(self, event: Event) -> (reply: Reply)
        requires
            self@.accepts(event@),
        ensures
            reply@ == self@.reply(event@),
    {
        if let Event::Failed = event {
            let context = self.failure();
            return Reply { printed: None, next: Next::Stop { context } };
        }
        let Registration { options, table, stage } = self;
        match (stage, event) {
            (Stage::PathsFile, Event::PathsFileRead { text }) => {
                match load_paths(options.paths_file.as_str(), text.as_str()) {
                    Ok(paths) => {
                        let line = paths_loaded(paths.len(), options.paths_file.as_str());
                        let props = catalog_props(&options);
                        Reply {
                            printed: Some(line),
                            next: Next::Perform {
                                registration: Registration {
                                    options,
                                    table,
                                    stage: Stage::Catalog { paths },
                                },
                                action: Action::BuildCatalog { props },
                            },
                        }
                    },
                    Err(e) => Reply { printed: None, next: Next::Stop { context: e.message() } },
                }
            },
            (Stage::Catalog { paths }, Event::CatalogBuilt) => {
                let action = Action::LoadTable { table: table.clone() };
                Reply {
                    printed: None,
                    next: Next::Perform {
                        registration: Registration {
                            options,
                            table,
                            stage: Stage::Table { paths },
                        },
                        action,
                    },
                }
            },
            (Stage::Table { paths }, Event::TableLoaded { snapshot }) => {
                let line = table_loaded(&table, snapshot);
                Reply {
                    printed: Some(line),
                    next: Next::Perform {
                        registration: Registration { options, table, stage: Stage::DataFiles },
                        action: Action::ConvertFiles { paths },
                    },
                }
            },
            (Stage::DataFiles, Event::FilesConverted { count, elapsed }) => {
                let line = files_built(count, elapsed.as_str());
                let check_duplicate = !options.skip_duplicate_check;
                Reply {
                    printed: Some(line),
                    next: Next::Perform {
                        registration: Registration { options, table, stage: Stage::Append },
                        action: Action::ApplyAppend { check_duplicate },
                    },
                }
            },
            (Stage::Append, Event::AppendApplied) => Reply {
                printed: None,
                next: Next::Perform {
                    registration: Registration { options, table, stage: Stage::Snapshot },
                    action: Action::Commit,
                },
            },
            (Stage::Snapshot, Event::Committed { snapshot, elapsed }) => Reply {
                printed: Some(committed(snapshot, elapsed.as_str())),
                next: Next::Done,
            },
            // No other pair of a stage and an outcome is accepted.
            _ => {
                assert(false);
                Reply { printed: None, next: Next::Done }
            },
        }
    }
}

/// The run and the step that it waits for after a series of outcomes, if the run
/// accepted each of them and has not ended.
pub open spec fn after(
    options: OptionsView,
    table: TableIdView,
    events: Seq<EventView>,
) -> Option<(RegistrationView, ActionView)>
    decreases events.len(),
{
    if events.len() == 0 {
        Some((RegistrationView::first(options, table), ActionView::ReadPathsFile))
    } else {
        match after(options, table, events.drop_last()) {
            Some((run, _)) => if run.accepts(events.last()) {
                match run.reply(events.last()).next {
                    NextView::Perform { registration, action } => Some((registration, action)),
                    _ => None,
                }
            } else {
                None
            },
            None => None,
        }
    }
}

/// The steps of a run in their order, for the paths that the list turns out to hold.
pub open spec fn plan(
    options: OptionsView,
    table: TableIdView,
    paths: Seq<Seq<char>>,
) -> Seq<ActionView> {
    seq![
        ActionView::ReadPathsFile,
        ActionView::BuildCatalog { props: crate::props::props_of(options) },
        ActionView::LoadTable { table },
        ActionView::ConvertFiles { paths },
        ActionView::ApplyAppend { check_duplicate: !options.skip_duplicate_check },
        ActionView::Commit,
    ]
}

/// How many steps were performed before a stage.
pub open spec fn steps_before(stage: StageView) -> nat {
    match stage {
        StageView::PathsFile => 0,
        StageView::Catalog { .. } => 1,
        StageView::Table { .. } => 2,
        StageView::DataFiles => 3,
        StageView::Append => 4,
        StageView::Snapshot => 5,
    }
}

/// The paths of the list that the first step of a run read.
pub open spec fn paths_read(events: Seq<EventView>) -> Seq<Seq<char>> {
    crate::paths::paths_of(events[0]->PathsFileRead_text)
}

/// A run takes the steps of the plan, one for each outcome, and no step is taken
/// after one that failed. What it converts are the paths of the list, of which there
/// is at least one. So nothing is committed unless every step before succeeded.
pub proof fn steps_follow_the_plan(
    options: OptionsView,
    table: TableIdView,
    events: Seq<EventView>,
)
    requires
        after(options, table, events) is Some,
    ensures
        events.len() < plan(options, table, paths_read(events)).len(),
        (after(options, table, events)->0).1 == plan(options, table, paths_read(events))[
            events.len() as int
        ],
        steps_before((after(options, table, events)->0).0.stage) == events.len(),
        (after(options, table, events)->0).0.options == options,
        (after(options, table, events)->0).0.table == table,
        forall|i: int| 0 <= i < events.len() ==> #[trigger] events[i] !is Failed,
        events.len() > 0 ==> events[0] is PathsFileRead && paths_read(events).len() > 0,
        match (after(options, table, events)->0).0.stage {
            StageView::Catalog { paths } => paths == paths_read(events),
            StageView::Table { paths } => paths == paths_read(events),
            _ => true,
        },
    decreases events.len(),
{
    if events.len() > 0 {
        let earlier = events.drop_last();
        steps_follow_the_plan(options, table, earlier);
        let run = (after(options, table, earlier)->0).0;
        assert(run.accepts(events.last()));
        assert(events.last() == events[events.len() - 1]);
        assert forall|i: int| 0 <= i < events.len() implies #[trigger] events[i] !is Failed by {
            if i < earlier.len() {
                assert(events[i] == earlier[i]);
            }
        }
        if earlier.len() > 0 {
            assert(events[0] == earlier[0]);
        }
    }
}

/// A run ends well exactly when the commit succeeds, which is its sixth outcome.
pub proof fn done_after_commit(
    options: OptionsView,
    table: TableIdView,
    events: Seq<EventView>,
    event: EventView,
)
    requires
        after(options, table, events) is Some,
        (after(options, table, events)->0).0.accepts(event),
    ensures
        (after(options, table, events)->0).0.reply(event).next is Done <==> event is Committed,
        event is Committed ==> events.len() == 5,
{
    steps_follow_the_plan(options, table, events);
}

/// A step that fails ends the run with what failed, and so does a list without paths;
/// nothing is printed then.
pub proof fn failure_ends_the_run(run: RegistrationView, event: EventView)
    requires
        run.accepts(event),
    ensures
        run.reply(event).next is Stop <==> event is Failed || (event is PathsFileRead
            && crate::paths::paths_of(event->PathsFileRead_text).len() == 0),
        run.reply(event).next is Stop ==> run.reply(event).printed is None,
        event is Failed ==> run.reply(event).next->Stop_context == run.failure_text(),
{
}

/// A run is started with the settings and told the outcomes one after the other: each reply
/// is the one to its outcome, and the next outcome is told to the run that the reply hands
/// back.
pub open spec fn told(
    options: Options,
    events: Seq<Event>,
    runs: Seq<Registration>,
    replies: Seq<Reply>,
) -> bool {
    &&& options.table_id@.contains('.')
    &&& runs.len() == events.len()
    &&& replies.len() == events.len()
    &&& events.len() > 0 ==> runs[0]@ == RegistrationView::first(
        options@,
        crate::table_id::table_of(options.table_id@)->0,
    )
    &&& forall|i: int|
        0 <= i < events.len() ==> #[trigger] replies[i]@ == runs[i]@.reply(events[i]@)
    &&& forall|i: int|
        #![trigger replies[i]]
        0 <= i < events.len() - 1 && replies[i].next is Perform ==> runs[i + 1]
            == replies[i].next->registration
}

/// If the list holds a path and every step succeeds, whatever the snapshots, counts and times
/// are, each outcome is accepted; the catalog is built with the properties of the settings,
/// the table of the settings is loaded, the paths of the list are converted, the append
/// checks for duplicates unless that was to be skipped, the commit follows and the run is
/// done. The lines tell the paths, the table with its snapshot, the data files and the
/// snapshot of the commit.
pub proof fn successes_register_the_list(
    options: Options,
    text: String,
    snapshot: Option<i64>,
    count: usize,
    elapsed: String,
    new_snapshot: Option<i64>,
    new_elapsed: String,
    runs: Seq<Registration>,
    replies: Seq<Reply>,
)
    requires
        crate::paths::paths_of(text@).len() > 0,
        told(
            options,
            seq![
                Event::PathsFileRead { text },
                Event::CatalogBuilt,
                Event::TableLoaded { snapshot },
                Event::FilesConverted { count, elapsed },
                Event::AppendApplied,
                Event::Committed { snapshot: new_snapshot, elapsed: new_elapsed },
            ],
            runs,
            replies,
        ),
    ensures
        runs[0]@.accepts((Event::PathsFileRead { text })@),
        replies[0].printed.deep_view() == Some(
            crate::report::paths_loaded_text(
                crate::paths::paths_of(text@).len(),
                options.paths_file@,
            ),
        ),
        replies[0].next is Perform,
        replies[0].next->action matches Action::BuildCatalog { props } && props.deep_view()
            == crate::props::props_of(options@),
        runs[1]@.accepts((Event::CatalogBuilt)@),
        replies[1].printed is None,
        replies[1].next is Perform,
        replies[1].next->action matches Action::LoadTable { table } && {
            &&& table.namespace@.len() > 0
            &&& forall|i: int|
                0 <= i < table.namespace@.len() ==> !(#[trigger] table.namespace@[i])@.contains('.')
            &&& !table.name@.contains('.')
            &&& table.namespace.deep_view().map_values(|level: Seq<char>| level.push('.')).flatten()
                + table.name@ == options.table_id@
        },
        runs[2]@.accepts((Event::TableLoaded { snapshot })@),
        replies[2].printed.deep_view() == Some(
            crate::report::table_loaded_text(options.table_id@, snapshot),
        ),
        replies[2].next is Perform,
        replies[2].next->action matches Action::ConvertFiles { paths } && paths.deep_view()
            == crate::paths::paths_of(text@),
        runs[3]@.accepts((Event::FilesConverted { count, elapsed })@),
        replies[3].printed.deep_view() == Some(
            crate::report::files_built_text(count as nat, elapsed@),
        ),
        replies[3].next is Perform,
        replies[3].next->action matches Action::ApplyAppend { check_duplicate } && check_duplicate
            == !options.skip_duplicate_check,
        runs[4]@.accepts((Event::AppendApplied)@),
        replies[4].printed is None,
        replies[4].next is Perform,
        replies[4].next->action is Commit,
        runs[5]@.accepts((Event::Committed { snapshot: new_snapshot, elapsed: new_elapsed })@),
        replies[5].printed.deep_view() == Some(
            crate::report::committed_text(new_snapshot, new_elapsed@),
        ),
        replies[5].next is Done,
{
    let events = seq![
        Event::PathsFileRead { text },
        Event::CatalogBuilt,
        Event::TableLoaded { snapshot },
        Event::FilesConverted { count, elapsed },
        Event::AppendApplied,
        Event::Committed { snapshot: new_snapshot, elapsed: new_elapsed },
    ];
    let s = options.table_id@;
    let read = crate::table_id::table_of(s)->0;
    crate::table_id::name_is_behind_last_dot(s);
    crate::table_id::written_as_read(s);
    crate::table_id::read_is_plain(s);
    assert(replies[0]@ == runs[0]@.reply(events[0]@));
    assert(runs[1] == replies[0].next->registration);
    assert(replies[1]@ == runs[1]@.reply(events[1]@));
    assert(runs[2] == replies[1].next->registration);
    assert(replies[2]@ == runs[2]@.reply(events[2]@));
    assert(runs[3] == replies[2].next->registration);
    assert(replies[3]@ == runs[3]@.reply(events[3]@));
    assert(runs[4] == replies[3].next->registration);
    assert(replies[4]@ == runs[4]@.reply(events[4]@));
    assert(runs[5] == replies[4].next->registration);
    assert(replies[5]@ == runs[5]@.reply(events[5]@));
    let table = replies[1].next->action->table;
    assert(table@ == read);
    assert forall|i: int| 0 <= i < table.namespace@.len() implies !(
    #[trigger] table.namespace@[i])@.contains('.') by {
        assert(read.namespace[i] == table.namespace@[i]@);
    }
}

/// The run goes on up to its outcome `i`: each outcome before was accepted and answered with
/// a step to perform.
pub open spec fn goes_on_to(
    options: Options,
    events: Seq<Event>,
    runs: Seq<Registration>,
    replies: Seq<Reply>,
    i: int,
) -> bool {
    &&& told(options, events, runs, replies)
    &&& 0 <= i < events.len()
    &&& forall|k: int|
        #![trigger replies[k]]
        0 <= k < i ==> runs[k]@.accepts(events[k]@) && replies[k].next is Perform
}

proof fn stage_at(
    options: Options,
    events: Seq<Event>,
    runs: Seq<Registration>,
    replies: Seq<Reply>,
    i: int,
)
    requires
        goes_on_to(options, events, runs, replies, i),
    ensures
        steps_before(runs[i]@.stage) == i,
        runs[i]@.options == options@,
        runs[i]@.table == crate::table_id::table_of(options.table_id@)->0,
    decreases i,
{
    if i > 0 {
        stage_at(options, events, runs, replies, i - 1);
        let reply = replies[i - 1];
        assert(reply@ == runs[i - 1]@.reply(events[i - 1]@));
        assert(runs[i] == reply.next->registration);
        assert(reply@.next == reply.next@);
    }
}

/// A run that goes on waits for one step, and takes its success, whatever it carries, or its
/// failure, and no outcome of another step. The steps come in one order, and there are six.
pub proof fn outcome_of_the_step_is_accepted(
    options: Options,
    events: Seq<Event>,
    runs: Seq<Registration>,
    replies: Seq<Reply>,
    i: int,
    event: Event,
)
    requires
        goes_on_to(options, events, runs, replies, i),
    ensures
        i < 6,
        runs[i]@.accepts(event@) <==> {
            ||| event is Failed
            ||| i == 0 && event is PathsFileRead
            ||| i == 1 && event is CatalogBuilt
            ||| i == 2 && event is TableLoaded
            ||| i == 3 && event is FilesConverted
            ||| i == 4 && event is AppendApplied
            ||| i == 5 && event is Committed
        },
{
    stage_at(options, events, runs, replies, i);
}

/// A step that succeeds is followed by another, or by the end of the run if it was the commit;
/// only a list without paths stops the run instead.
pub proof fn success_goes_on(
    options: Options,
    events: Seq<Event>,
    runs: Seq<Registration>,
    replies: Seq<Reply>,
    i: int,
)
    requires
        goes_on_to(options, events, runs, replies, i),
        runs[i]@.accepts(events[i]@),
        events[i] !is Failed,
        events[i] matches Event::PathsFileRead { text } ==> crate::paths::paths_of(text@).len() > 0,
    ensures
        events[i] !is Committed ==> replies[i].next is Perform,
        events[i] is Committed ==> replies[i].next is Done,
{
    stage_at(options, events, runs, replies, i);
    assert(replies[i]@ == runs[i]@.reply(events[i]@));
    assert(replies[i]@.next == replies[i].next@);
}

/// A step that fails stops the run. Nothing is printed, and the run says which step it was,
/// with the file or the table as the settings name it.
pub proof fn failure_says_what_failed(
    options: Options,
    events: Seq<Event>,
    runs: Seq<Registration>,
    replies: Seq<Reply>,
    i: int,
)
    requires
        goes_on_to(options, events, runs, replies, i),
        events[i] is Failed,
    ensures
        i < 6,
        runs[i]@.accepts(events[i]@),
        replies[i].printed is None,
        replies[i].next matches Next::Stop { context } && {
            &&& i == 0 ==> context@ == "reading --paths-file "@ + options.paths_file@
            &&& i == 1 ==> context@ == "building REST catalog"@
            &&& i == 2 ==> context@ == "loading table "@ + options.table_id@
            &&& i == 3 ==> context@ == "converting parquet files to data files"@
            &&& i == 4 ==> context@ == "applying FastAppendAction"@
            &&& i == 5 ==> context@ == "committing transaction"@
        },
{
    let s = options.table_id@;
    stage_at(options, events, runs, replies, i);
    crate::table_id::name_is_behind_last_dot(s);
    crate::table_id::written_as_read(s);
    assert(replies[i]@ == runs[i]@.reply(events[i]@));
    assert(replies[i]@.next == replies[i].next@);
    assert(replies[i]@.printed == replies[i].printed.deep_view());
}

/// A list without paths stops the run before the catalog is built. Nothing is printed, and
/// the run names the file.
pub proof fn list_without_paths_stops_the_run(
    options: Options,
    events: Seq<Event>,
    runs: Seq<Registration>,
    replies: Seq<Reply>,
)
    requires
        told(options, events, runs, replies),
        events.len() > 0,
        events[0] matches Event::PathsFileRead { text } && forall|k: int|
            0 <= k < crate::text::lines(text@).len() ==> {
                let line = crate::text::trimmed(#[trigger] crate::text::lines(text@)[k]);
                line.len() == 0 || line[0] == '#'
            },
    ensures
        runs[0]@.accepts(events[0]@),
        replies[0].printed is None,
        replies[0].next matches Next::Stop { context } && context@ == "--paths-file "@
            + options.paths_file@ + " contained no paths"@,
{
    let text = events[0]->text;
    if crate::paths::paths_of(text@).len() > 0 {
        crate::paths::every_other_line_is_read(text@, crate::paths::paths_of(text@)[0]);
    }
    assert(replies[0]@ == runs[0]@.reply(events[0]@));
    assert(replies[0]@.next == replies[0].next@);
    assert(replies[0]@.printed == replies[0].printed.deep_view());
}

} // verus!
