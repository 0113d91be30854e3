//! The order in which a plugin or a theme is installed.
//!
//! Each step takes what came of the last one and says what to do next. The clone is made
//! beside the install root. A plugin's permissions are shown, and agreed to, before
//! anything is written at the root; a refusal and an error both end with the clone
//! removed.

use vstd::prelude::*;

use crate::decimal::digits_of;
use crate::paths::join;
use crate::pkg::{
    already_installed, check_entry, confirmed, consent_text, count_themes, is_git_url,
    name_error_message, plan_install, resolve_from_registry, InstallPlan, Kind, Manifest, PlanModel,
    RegistryEntry,
};

verus! {

/// What an install is waiting for.
#[derive(Debug, Clone, Copy, PartialEq, Eq, Structural)]
pub enum Stage {
    /// To be begun.
    Fresh,
    /// The registry's index.
    Index,
    /// Whether the target is there already.
    Target,
    /// An earlier clone being out of the way.
    Clearing,
    /// The clone.
    Cloning,
    /// The plugin's manifest.
    Reading,
    /// Whether the entry that the manifest names is there.
    Entry,
    /// The names of the theme repository's files.
    Files,
    /// The themes' number being shown.
    Counted,
    /// The plugin's permissions being shown.
    Showing,
    /// The answer.
    Asking,
    /// The install root.
    Rooting,
    /// The clone being moved into place.
    Moving,
    /// The clone being removed.
    Leaving,
    /// Nothing: it is over.
    Over,
}

/// How an install ended, and what to tell the user.
#[derive(Debug, PartialEq, Eq)]
pub enum Ending {
    Installed(String),
    Cancelled(String),
    Failed(String),
}

/// An ending as a mathematical value.
#[verifier::ext_equal]
pub enum EndingModel {
    Installed(Seq<char>),
    Cancelled(Seq<char>),
    Failed(Seq<char>),
}

impl View for Ending {
    type V = EndingModel;

    open spec fn view(&self) -> EndingModel {
        match *self {
            Ending::Installed(text) => EndingModel::Installed(text@),
            Ending::Cancelled(text) => EndingModel::Cancelled(text@),
            Ending::Failed(text) => EndingModel::Failed(text@),
        }
    }
}

/// What came of an action. A failure says why.
#[derive(Debug)]
pub enum InstallEvent {
    Begin,
    Index(Result<Vec<RegistryEntry>, String>),
    Found(bool),
    Done,
    Ran(Result<(), String>),
    Manifest(Result<Manifest, String>),
    Files(Vec<String>),
    Answer(Result<String, String>),
}

/// An event as a mathematical value.
#[verifier::ext_equal]
pub enum EventModel {
    Begin,
    Index(Result<Seq<RegistryEntry>, Seq<char>>),
    Found(bool),
    Done,
    Ran(Result<(), Seq<char>>),
    Manifest(Result<Manifest, Seq<char>>),
    Files(Seq<String>),
    Answer(Result<Seq<char>, Seq<char>>),
}

impl View for InstallEvent {
    type V = EventModel;

    open spec fn view(&self) -> EventModel {
        match *self {
            InstallEvent::Begin => EventModel::Begin,
            InstallEvent::Index(Ok(table)) => EventModel::Index(Ok(table@)),
            InstallEvent::Index(Err(why)) => EventModel::Index(Err(why@)),
            InstallEvent::Found(there) => EventModel::Found(there),
            InstallEvent::Done => EventModel::Done,
            InstallEvent::Ran(Ok(_)) => EventModel::Ran(Ok(())),
            InstallEvent::Ran(Err(why)) => EventModel::Ran(Err(why@)),
            InstallEvent::Manifest(Ok(m)) => EventModel::Manifest(Ok(m)),
            InstallEvent::Manifest(Err(why)) => EventModel::Manifest(Err(why@)),
            InstallEvent::Files(names) => EventModel::Files(names@),
            InstallEvent::Answer(Ok(said)) => EventModel::Answer(Ok(said@)),
            InstallEvent::Answer(Err(why)) => EventModel::Answer(Err(why@)),
        }
    }
}

/// What to do next.
#[derive(Debug, PartialEq, Eq)]
pub enum InstallAction {
    /// Nothing: this event was not waited for.
    Nothing,
    /// Read the registry's index of this kind; then `Index`.
    ReadIndex(Kind),
    /// See whether something is there; then `Found`.
    LookFor(String),
    /// Remove a directory, if it is there; then `Done`.
    Clear(String),
    /// Run git with these words, cloning this URL; then `Ran`.
    Clone(String, Vec<String>),
    /// Read the manifest in this directory; then `Manifest`.
    ReadManifest(String),
    /// See whether this is a file; then `Found`.
    LookForFile(String),
    /// List the files of this directory; then `Files`.
    ListFiles(String),
    /// Show these lines; then `Done`.
    Show(Vec<String>),
    /// Ask, and read a line; then `Answer`.
    Ask(String),
    /// Make sure of the install root; then `Ran`.
    CreateRoot(String),
    /// Move the first into place as the second; then `Ran`.
    Move(String, String),
    /// Remove the clone; then `Done`.
    RemoveClone(String),
    /// Say how it ended. There is nothing more to do.
    Finish(Ending),
}

/// An action as a mathematical value.
#[verifier::ext_equal]
pub enum ActionModel {
    Nothing,
    ReadIndex(Kind),
    LookFor(Seq<char>),
    Clear(Seq<char>),
    Clone(Seq<char>, Seq<Seq<char>>),
    ReadManifest(Seq<char>),
    LookForFile(Seq<char>),
    ListFiles(Seq<char>),
    Show(Seq<Seq<char>>),
    Ask(Seq<char>),
    CreateRoot(Seq<char>),
    Move(Seq<char>, Seq<char>),
    RemoveClone(Seq<char>),
    Finish(EndingModel),
}

impl View for InstallAction {
    type V = ActionModel;

    open spec fn view(&self) -> ActionModel {
        match *self {
            InstallAction::Nothing => ActionModel::Nothing,
            InstallAction::ReadIndex(kind) => ActionModel::ReadIndex(kind),
            InstallAction::LookFor(path) => ActionModel::LookFor(path@),
            InstallAction::Clear(path) => ActionModel::Clear(path@),
            InstallAction::Clone(url, words) => ActionModel::Clone(
                url@,
                crate::widget::texts(words@),
            ),
            InstallAction::ReadManifest(path) => ActionModel::ReadManifest(path@),
            InstallAction::LookForFile(path) => ActionModel::LookForFile(path@),
            InstallAction::ListFiles(path) => ActionModel::ListFiles(path@),
            InstallAction::Show(lines) => ActionModel::Show(crate::widget::texts(lines@)),
            InstallAction::Ask(question) => ActionModel::Ask(question@),
            InstallAction::CreateRoot(path) => ActionModel::CreateRoot(path@),
            InstallAction::Move(from, to) => ActionModel::Move(from@, to@),
            InstallAction::RemoveClone(path) => ActionModel::RemoveClone(path@),
            InstallAction::Finish(ending) => ActionModel::Finish(ending@),
        }
    }
}

impl ActionModel {
    /// The action writes at the install root or below it.
    pub open spec fn writes_root(self) -> bool {
        self is CreateRoot || self is Move
    }
}

/// An install under way.
#[derive(Debug)]
pub struct Install {
    pub kind: Kind,
    pub data_dir: String,
    /// A git URL or a registry name.
    pub source: String,
    /// The question is skipped, for scripted installs.
    pub yes: bool,
    pub stage: Stage,
    /// Where it goes, once that is known.
    pub plan: Option<InstallPlan>,
    /// What a plugin says of itself, once it was read.
    pub manifest: Option<Manifest>,
    /// How it ends once the clone is removed.
    pub ending: Option<Ending>,
}

/// An install as a mathematical value.
#[verifier::ext_equal]
pub struct InstallModel {
    pub kind: Kind,
    pub data_dir: Seq<char>,
    pub source: Seq<char>,
    pub yes: bool,
    pub stage: Stage,
    pub plan: Option<PlanModel>,
    pub manifest: Option<Manifest>,
    pub ending: Option<EndingModel>,
}

impl View for Install {
    type V = InstallModel;

    open spec fn view(&self) -> InstallModel {
        InstallModel {
            kind: self.kind,
            data_dir: self.data_dir@,
            source: self.source@,
            yes: self.yes,
            stage: self.stage,
            plan: match self.plan {
                Some(p) => Some(p@),
                None => None,
            },
            manifest: self.manifest,
            ending: match self.ending {
                Some(e) => Some(e@),
                None => None,
            },
        }
    }
}

impl InstallModel {
    /// An install that has not begun.
    pub open spec fn fresh(kind: Kind, data_dir: Seq<char>, source: Seq<char>, yes: bool) -> InstallModel {
        InstallModel {
            kind,
            data_dir,
            source,
            yes,
            stage: Stage::Fresh,
            plan: None,
            manifest: None,
            ending: None,
        }
    }

    /// What is known at every stage.
    pub open spec fn wf(self) -> bool {
        &&& !(self.stage is Fresh || self.stage is Index || self.stage is Over) ==> self.plan is Some
        &&& self.stage is Reading || self.stage is Entry || self.stage is Showing
            || self.stage is Asking ==> self.kind is Plugin
        &&& self.stage is Files || self.stage is Counted ==> self.kind is Theme
        &&& self.stage is Entry || self.stage is Showing || self.stage is Asking
            ==> self.manifest is Some
        &&& self.stage is Leaving ==> self.ending is Some
    }

    pub open spec fn at(self, stage: Stage) -> InstallModel {
        InstallModel { stage, ..self }
    }

    /// Over before there was a clone.
    pub open spec fn failed(self, why: Seq<char>) -> (InstallModel, ActionModel) {
        (self.at(Stage::Over), ActionModel::Finish(EndingModel::Failed(why)))
    }

    /// The clone goes, and then it is over.
    pub open spec fn left(self, ending: EndingModel) -> (InstallModel, ActionModel) {
        (
            InstallModel { stage: Stage::Leaving, ending: Some(ending), ..self },
            ActionModel::RemoveClone(self.plan->0.staging),
        )
    }

    /// The URL is known.
    pub open spec fn planned(self, url: Seq<char>) -> (InstallModel, ActionModel) {
        if crate::pkg::well_named(url) {
            let plan = PlanModel::of(self.kind, self.data_dir, url);
            (
                InstallModel { stage: Stage::Target, plan: Some(plan), ..self },
                ActionModel::LookFor(plan.target),
            )
        } else {
            self.failed(crate::pkg::refusal_text(url))
        }
    }

    /// It is valid and wanted.
    pub open spec fn agreed(self) -> (InstallModel, ActionModel) {
        (self.at(Stage::Rooting), ActionModel::CreateRoot(self.plan->0.root))
    }

    /// Whether the user agrees to what was shown.
    pub open spec fn answered(self, answer: Seq<char>) -> (InstallModel, ActionModel) {
        if self.yes || crate::pkg::says_yes(answer) {
            self.agreed()
        } else {
            self.left(EndingModel::Cancelled("cancelled; nothing was installed"@))
        }
    }

    /// One step: what came of the last action, and what to do next. An event that is not
    /// waited for changes nothing.
    pub open spec fn stepped(self, event: EventModel) -> (InstallModel, ActionModel) {
        let plan = self.plan->0;
        match (self.stage, event) {
            (Stage::Fresh, EventModel::Begin) => if crate::pkg::looks_like_url(self.source) {
                self.planned(self.source)
            } else {
                (self.at(Stage::Index), ActionModel::ReadIndex(self.kind))
            },
            (Stage::Index, EventModel::Index(Ok(table))) => match crate::pkg::package_at(
                table,
                self.source,
                table.len() as int,
            ) {
                Some(i) => self.planned(table[i].url@),
                None => self.failed(crate::pkg::missing_text(self.kind, self.source)),
            },
            (Stage::Index, EventModel::Index(Err(why))) => self.failed(why),
            (Stage::Target, EventModel::Found(there)) => if there {
                self.failed(crate::pkg::installed_text(self.kind, plan.name, plan.target))
            } else {
                (self.at(Stage::Clearing), ActionModel::Clear(plan.staging))
            },
            (Stage::Clearing, EventModel::Done) => (
                self.at(Stage::Cloning),
                ActionModel::Clone(plan.url, plan.clone),
            ),
            (Stage::Cloning, EventModel::Ran(Ok(_))) => match self.kind {
                Kind::Plugin => (self.at(Stage::Reading), ActionModel::ReadManifest(plan.staging)),
                Kind::Theme => (self.at(Stage::Files), ActionModel::ListFiles(plan.staging)),
            },
            (Stage::Cloning, EventModel::Ran(Err(why))) => self.failed(why),
            (Stage::Reading, EventModel::Manifest(Ok(m))) => (
                InstallModel { stage: Stage::Entry, manifest: Some(m), ..self },
                ActionModel::LookForFile(crate::paths::joined(plan.staging, m.entry@)),
            ),
            (Stage::Reading, EventModel::Manifest(Err(why))) => self.left(EndingModel::Failed(why)),
            (Stage::Entry, EventModel::Found(there)) => if there {
                (
                    self.at(Stage::Showing),
                    ActionModel::Show(crate::pkg::consent_lines(self.manifest->0)),
                )
            } else {
                self.left(
                    EndingModel::Failed(
                        "the manifest names entry `"@ + self.manifest->0.entry@
                            + "`, which is not in the repository"@,
                    ),
                )
            },
            (Stage::Showing, EventModel::Done) => if self.yes {
                self.agreed()
            } else {
                (self.at(Stage::Asking), ActionModel::Ask("install? [y/N] "@))
            },
            (Stage::Asking, EventModel::Answer(Ok(answer))) => self.answered(answer),
            (Stage::Asking, EventModel::Answer(Err(why))) => self.left(EndingModel::Failed(why)),
            (Stage::Files, EventModel::Files(names)) => {
                let count = crate::pkg::toml_count(names, names.len() as int);
                if count > 0 {
                    (
                        self.at(Stage::Counted),
                        ActionModel::Show(
                            seq![
                                "found "@ + crate::decimal::digits(count as nat)
                                    + " theme file(s)"@,
                            ],
                        ),
                    )
                } else {
                    self.left(
                        EndingModel::Failed("no .toml theme files found in the repository"@),
                    )
                }
            },
            (Stage::Counted, EventModel::Done) => self.agreed(),
            (Stage::Rooting, EventModel::Ran(Ok(_))) => (
                self.at(Stage::Moving),
                ActionModel::Move(plan.staging, plan.target),
            ),
            (Stage::Rooting, EventModel::Ran(Err(why))) => self.left(EndingModel::Failed(why)),
            (Stage::Moving, EventModel::Ran(Ok(_))) => (
                self.at(Stage::Over),
                ActionModel::Finish(
                    EndingModel::Installed(
                        "installed "@ + self.kind.word() + " `"@ + plan.name + "`"@,
                    ),
                ),
            ),
            (Stage::Moving, EventModel::Ran(Err(why))) => self.left(EndingModel::Failed(why)),
            (Stage::Leaving, EventModel::Done) => (
                InstallModel { stage: Stage::Over, ending: None, ..self },
                ActionModel::Finish(self.ending->0),
            ),
            _ => (self, ActionModel::Nothing),
        }
    }

    /// The state after the first `n` events.
    pub open spec fn after(self, events: Seq<EventModel>, n: int) -> InstallModel
        decreases n,
    {
        if n <= 0 {
            self
        } else {
            self.after(events, n - 1).stepped(events[n - 1]).0
        }
    }

    /// The action that event `k` calls for.
    pub open spec fn action(self, events: Seq<EventModel>, k: int) -> ActionModel {
        self.after(events, k).stepped(events[k]).1
    }
}

impl Install {
    /// An install that has not begun.
    pub fn new(kind: Kind, data_dir: &str, source: &str, yes: bool) -> (install: Self)
        ensures
            install@ == InstallModel::fresh(kind, data_dir@, source@, yes),
            install@.wf(),
    {
        Install {
            kind,
            data_dir: data_dir.to_owned(),
            source: source.to_owned(),
            yes,
            stage: Stage::Fresh,
            plan: None,
            manifest: None,
            ending: None,
        }
    }

    fn fail(&mut self, why: String) -> (action: InstallAction)
        ensures
            (final(self)@, action@) == old(self)@.failed(why@),
    {
        self.stage = Stage::Over;
        InstallAction::Finish(Ending::Failed(why))
    }

    fn leave(&mut self, ending: Ending) -> (action: InstallAction)
        requires
            old(self)@.plan is Some,
        ensures
            (final(self)@, action@) == old(self)@.left(ending@),
    {
        let staging = self.staging();
        self.stage = Stage::Leaving;
        self.ending = Some(ending);
        InstallAction::RemoveClone(staging)
    }

    fn staging(&self) -> (path: String)
        requires
            self@.plan is Some,
        ensures
            path@ == self@.plan->0.staging,
    {
        match &self.plan {
            Some(plan) => plan.staging.clone(),
            None => String::new(),
        }
    }

    fn plan_for(&mut self, url: &str) -> (action: InstallAction)
        ensures
            (final(self)@, action@) == old(self)@.planned(url@),
    {
        match plan_install(self.kind, self.data_dir.as_str(), url) {
            Ok(plan) => {
                let target = plan.target.clone();
                self.stage = Stage::Target;
                self.plan = Some(plan);
                InstallAction::LookFor(target)
            },
            Err(e) => self.fail(name_error_message(&e, url)),
        }
    }

    fn agree(&mut self) -> (action: InstallAction)
        requires
            old(self)@.plan is Some,
        ensures
            (final(self)@, action@) == old(self)@.agreed(),
    {
        self.stage = Stage::Rooting;
        match &self.plan {
            Some(plan) => InstallAction::CreateRoot(plan.root.clone()),
            None => InstallAction::Nothing,
        }
    }

    fn begin(&mut self) -> (action: InstallAction)
        requires
            old(self)@.stage is Fresh,
        ensures
            (final(self)@, action@) == old(self)@.stepped(EventModel::Begin),
    {
        if is_git_url(self.source.as_str()) {
            let url = self.source.clone();
            self.plan_for(url.as_str())
        } else {
            self.stage = Stage::Index;
            InstallAction::ReadIndex(self.kind)
        }
    }

    fn look_up(&mut self, table: Vec<RegistryEntry>) -> (action: InstallAction)
        requires
            old(self)@.stage is Index,
        ensures
            (final(self)@, action@) == old(self)@.stepped(EventModel::Index(Ok(table@))),
    {
        match resolve_from_registry(self.kind, table.as_slice(), self.source.as_str()) {
            Ok(url) => self.plan_for(url.as_str()),
            Err(why) => self.fail(why),
        }
    }

    fn target_found(&mut self, there: bool) -> (action: InstallAction)
        requires
            old(self)@.stage is Target,
            old(self)@.plan is Some,
        ensures
            (final(self)@, action@) == old(self)@.stepped(EventModel::Found(there)),
    {
        if there {
            let why = match &self.plan {
                Some(plan) => already_installed(
                    self.kind,
                    plan.name.as_str(),
                    plan.target.as_str(),
                ),
                None => String::new(),
            };
            self.fail(why)
        } else {
            self.stage = Stage::Clearing;
            InstallAction::Clear(self.staging())
        }
    }

    fn clone_it(&mut self) -> (action: InstallAction)
        requires
            old(self)@.stage is Clearing,
            old(self)@.plan is Some,
        ensures
            (final(self)@, action@) == old(self)@.stepped(EventModel::Done),
    {
        self.stage = Stage::Cloning;
        match &self.plan {
            Some(plan) => {
                let words = copied(&plan.clone);
                InstallAction::Clone(plan.url.clone(), words)
            },
            None => InstallAction::Nothing,
        }
    }

    fn cloned_it(&mut self) -> (action: InstallAction)
        requires
            old(self)@.stage is Cloning,
            old(self)@.plan is Some,
        ensures
            (final(self)@, action@) == old(self)@.stepped(EventModel::Ran(Ok(()))),
    {
        let staging = self.staging();
        match self.kind {
            Kind::Plugin => {
                self.stage = Stage::Reading;
                InstallAction::ReadManifest(staging)
            },
            Kind::Theme => {
                self.stage = Stage::Files;
                InstallAction::ListFiles(staging)
            },
        }
    }

    fn manifest_read(&mut self, manifest: Manifest) -> (action: InstallAction)
        requires
            old(self)@.stage is Reading,
            old(self)@.plan is Some,
        ensures
            (final(self)@, action@) == old(self)@.stepped(EventModel::Manifest(Ok(manifest))),
    {
        let entry = join(self.staging().as_str(), manifest.entry.as_str());
        self.stage = Stage::Entry;
        self.manifest = Some(manifest);
        InstallAction::LookForFile(entry)
    }

    fn entry_found(&mut self, there: bool) -> (action: InstallAction)
        requires
            old(self)@.stage is Entry,
            old(self)@.plan is Some,
            old(self)@.manifest is Some,
        ensures
            (final(self)@, action@) == old(self)@.stepped(EventModel::Found(there)),
    {
        let checked = match &self.manifest {
            Some(manifest) => match check_entry(manifest.entry.as_str(), there) {
                Ok(_) => Ok(consent_text(manifest)),
                Err(why) => Err(why),
            },
            None => Err(String::new()),
        };
        match checked {
            Ok(lines) => {
                self.stage = Stage::Showing;
                InstallAction::Show(lines)
            },
            Err(why) => self.leave(Ending::Failed(why)),
        }
    }

    fn files_listed(&mut self, names: Vec<String>) -> (action: InstallAction)
        requires
            old(self)@.stage is Files,
            old(self)@.plan is Some,
        ensures
            (final(self)@, action@) == old(self)@.stepped(EventModel::Files(names@)),
    {
        match count_themes(&names) {
            Ok(count) => {
                let mut line = "found ".to_owned();
                line.append(digits_of(count as u64).as_str());
                line.append(" theme file(s)");
                self.stage = Stage::Counted;
                let mut lines: Vec<String> = Vec::new();
                lines.push(line);
                assert(crate::widget::texts(lines@) =~= seq![line@]);
                InstallAction::Show(lines)
            },
            Err(why) => self.leave(Ending::Failed(why)),
        }
    }

    fn answer_given(&mut self, answer: String) -> (action: InstallAction)
        requires
            old(self)@.plan is Some,
        ensures
            (final(self)@, action@) == old(self)@.answered(answer@),
    {
        if confirmed(self.yes, answer.as_str()) {
            self.agree()
        } else {
            self.leave(Ending::Cancelled("cancelled; nothing was installed".to_owned()))
        }
    }

    fn root_made(&mut self) -> (action: InstallAction)
        requires
            old(self)@.stage is Rooting,
            old(self)@.plan is Some,
        ensures
            (final(self)@, action@) == old(self)@.stepped(EventModel::Ran(Ok(()))),
    {
        self.stage = Stage::Moving;
        match &self.plan {
            Some(plan) => InstallAction::Move(plan.staging.clone(), plan.target.clone()),
            None => InstallAction::Nothing,
        }
    }

    fn moved_in(&mut self) -> (action: InstallAction)
        requires
            old(self)@.stage is Moving,
            old(self)@.plan is Some,
        ensures
            (final(self)@, action@) == old(self)@.stepped(EventModel::Ran(Ok(()))),
    {
        self.stage = Stage::Over;
        let mut text = "installed ".to_owned();
        text.append(self.kind.label());
        text.append(" `");
        match &self.plan {
            Some(plan) => text.append(plan.name.as_str()),
            None => {},
        }
        text.append("`");
        InstallAction::Finish(Ending::Installed(text))
    }

    fn clone_removed(&mut self) -> (action: InstallAction)
        requires
            old(self)@.stage is Leaving,
            old(self)@.ending is Some,
        ensures
            (final(self)@, action@) == old(self)@.stepped(EventModel::Done),
    {
        self.stage = Stage::Over;
        match self.ending.take() {
            Some(ending) => InstallAction::Finish(ending),
            None => InstallAction::Nothing,
        }
    }
}

/// A copy of a list of words.
fn copied(words: &Vec<String>) -> (copy: Vec<String>)
    ensures
        crate::widget::texts(copy@) == crate::widget::texts(words@),
{
    let mut copy: Vec<String> = Vec::new();
    let mut i: usize = 0;
    while i < words.len()
        invariant
            i <= words@.len(),
            copy@.len() == i,
            forall|k: int| 0 <= k < i ==> (#[trigger] copy@[k])@ == words@[k]@,
        decreases words@.len() - i,
    {
        copy.push(words[i].clone());
        i += 1;
    }
    assert(crate::widget::texts(copy@) =~= crate::widget::texts(words@));
    copy
}

/// Take in what came of the last action, and say what to do next.
pub fn install_step(state: &mut Install, event: InstallEvent) -> (action: InstallAction)
    requires
        old(state)@.wf(),
    ensures
        (final(state)@, action@) == old(state)@.stepped(event@),
        final(state)@.wf(),
{
    match (state.stage, event) {
        (Stage::Fresh, InstallEvent::Begin) => state.begin(),
        (Stage::Index, InstallEvent::Index(Ok(table))) => state.look_up(table),
        (Stage::Index, InstallEvent::Index(Err(why))) => state.fail(why),
        (Stage::Target, InstallEvent::Found(there)) => state.target_found(there),
        (Stage::Clearing, InstallEvent::Done) => state.clone_it(),
        (Stage::Cloning, InstallEvent::Ran(Ok(_))) => state.cloned_it(),
        (Stage::Cloning, InstallEvent::Ran(Err(why))) => state.fail(why),
        (Stage::Reading, InstallEvent::Manifest(Ok(manifest))) => state.manifest_read(manifest),
        (Stage::Reading, InstallEvent::Manifest(Err(why))) => state.leave(Ending::Failed(why)),
        (Stage::Entry, InstallEvent::Found(there)) => state.entry_found(there),
        (Stage::Showing, InstallEvent::Done) => {
            if state.yes {
                state.agree()
            } else {
                state.stage = Stage::Asking;
                InstallAction::Ask("install? [y/N] ".to_owned())
            }
        },
        (Stage::Asking, InstallEvent::Answer(Ok(answer))) => state.answer_given(answer),
        (Stage::Asking, InstallEvent::Answer(Err(why))) => state.leave(Ending::Failed(why)),
        (Stage::Files, InstallEvent::Files(names)) => state.files_listed(names),
        (Stage::Counted, InstallEvent::Done) => state.agree(),
        (Stage::Rooting, InstallEvent::Ran(Ok(_))) => state.root_made(),
        (Stage::Rooting, InstallEvent::Ran(Err(why))) => state.leave(Ending::Failed(why)),
        (Stage::Moving, InstallEvent::Ran(Ok(_))) => state.moved_in(),
        (Stage::Moving, InstallEvent::Ran(Err(why))) => state.leave(Ending::Failed(why)),
        (Stage::Leaving, InstallEvent::Done) => state.clone_removed(),
        _ => InstallAction::Nothing,
    }
}

// --- laws ---------------------------------------------------------------------------

/// An answer that agrees.
pub open spec fn said_yes(event: EventModel) -> bool {
    event matches EventModel::Answer(Ok(answer)) && crate::pkg::says_yes(answer)
}

/// One of the first `n` events brought this manifest.
pub open spec fn was_read(events: Seq<EventModel>, n: int, m: Manifest) -> bool {
    exists|i: int| 0 <= i < n && #[trigger] events[i] == EventModel::Manifest(Ok(m))
}

impl InstallModel {
    /// Event `j` had everything the plugin asks for shown.
    pub open spec fn shows(self, events: Seq<EventModel>, j: int, m: Manifest) -> bool {
        self.action(events, j) == ActionModel::Show(crate::pkg::consent_lines(m))
    }

    /// What the plugin asks for was shown by one of the first `n` events, and then agreed
    /// to.
    pub open spec fn was_agreed(self, events: Seq<EventModel>, n: int, m: Manifest) -> bool {
        exists|j: int|
            0 <= j < n && #[trigger] self.shows(events, j, m) && (self.yes || exists|a: int|
                j < a < n && said_yes(#[trigger] events[a]))
    }
}

/// The manifest an install of a plugin holds after `n` events is one that was read.
proof fn lemma_manifest(start: InstallModel, events: Seq<EventModel>, n: int)
    requires
        start == InstallModel::fresh(Kind::Plugin, start.data_dir, start.source, start.yes),
        0 <= n <= events.len(),
    ensures
        start.after(events, n).wf(),
        start.after(events, n).kind is Plugin,
        start.after(events, n).yes == start.yes,
        start.after(events, n).manifest matches Some(m) ==> was_read(events, n, m),
    decreases n,
{
    if n > 0 {
        lemma_manifest(start, events, n - 1);
        let s = start.after(events, n - 1);
        let t = start.after(events, n);
        assert(t == s.stepped(events[n - 1]).0);
        if t.manifest is Some {
            let i = if s.manifest == t.manifest {
                choose|i: int|
                    0 <= i < n - 1 && #[trigger] events[i] == EventModel::Manifest(
                        Ok(s.manifest->0),
                    )
            } else {
                n - 1
            };
            assert(events[i] == EventModel::Manifest(Ok(t.manifest->0)));
        }
    }
}

/// Where an install of a plugin shows or asks after `n` events, what the plugin asks for
/// was shown by one of them.
proof fn lemma_shown(start: InstallModel, events: Seq<EventModel>, n: int)
    requires
        start == InstallModel::fresh(Kind::Plugin, start.data_dir, start.source, start.yes),
        0 <= n <= events.len(),
    ensures
        ({
            let s = start.after(events, n);
            s.stage is Showing || s.stage is Asking ==> s.manifest is Some && exists|j: int|
                0 <= j < n && #[trigger] start.shows(events, j, s.manifest->0)
        }),
    decreases n,
{
    if n > 0 {
        lemma_shown(start, events, n - 1);
        lemma_manifest(start, events, n - 1);
        let s = start.after(events, n - 1);
        let t = start.after(events, n);
        assert(t == s.stepped(events[n - 1]).0);
        if t.stage is Showing || t.stage is Asking {
            let j = if s.stage is Entry {
                n - 1
            } else {
                choose|j: int| 0 <= j < n - 1 && #[trigger] start.shows(events, j, s.manifest->0)
            };
            assert(start.shows(events, j, t.manifest->0));
        }
    }
}

/// Where an install of a plugin has come to write at the install root after `n` events,
/// what the plugin asks for was shown and agreed to.
proof fn lemma_agreed(start: InstallModel, events: Seq<EventModel>, n: int)
    requires
        start == InstallModel::fresh(Kind::Plugin, start.data_dir, start.source, start.yes),
        0 <= n <= events.len(),
    ensures
        ({
            let s = start.after(events, n);
            s.stage is Rooting || s.stage is Moving ==> s.manifest is Some && start.was_agreed(
                events,
                n,
                s.manifest->0,
            )
        }),
    decreases n,
{
    if n > 0 {
        lemma_agreed(start, events, n - 1);
        lemma_shown(start, events, n - 1);
        lemma_manifest(start, events, n - 1);
        let s = start.after(events, n - 1);
        let t = start.after(events, n);
        assert(t == s.stepped(events[n - 1]).0);
        if t.stage is Rooting || t.stage is Moving {
            assert(t.manifest == s.manifest);
            if s.stage is Rooting || s.stage is Moving {
                let j = choose|j: int|
                    0 <= j < n - 1 && #[trigger] start.shows(events, j, s.manifest->0) && (
                    start.yes || exists|a: int| j < a < n - 1 && said_yes(#[trigger] events[a]));
                assert(start.shows(events, j, t.manifest->0));
                if !start.yes {
                    let a = choose|a: int| j < a < n - 1 && said_yes(#[trigger] events[a]);
                    assert(said_yes(events[a]));
                }
            } else {
                assert(s.stage is Showing || s.stage is Asking);
                let j = choose|j: int|
                    0 <= j < n - 1 && #[trigger] start.shows(events, j, s.manifest->0);
                assert(start.shows(events, j, t.manifest->0));
                if !start.yes {
                    assert(said_yes(events[n - 1]));
                }
            }
        }
    }
}

/// A plugin's permissions are shown and agreed to before anything is written at the
/// install root: whatever happens on the way, an action that writes there comes after the
/// manifest was read, after all that the plugin asks for was shown, and, unless the
/// question is skipped, after an answer that agrees.
pub proof fn law_consent_comes_before_a_write(
    data_dir: Seq<char>,
    source: Seq<char>,
    yes: bool,
    events: Seq<EventModel>,
    k: int,
)
    requires
        0 <= k < events.len(),
        InstallModel::fresh(Kind::Plugin, data_dir, source, yes).action(events, k).writes_root(),
    ensures
        exists|m: Manifest|
            was_read(events, k, m) && #[trigger] InstallModel::fresh(
                Kind::Plugin,
                data_dir,
                source,
                yes,
            ).was_agreed(events, k + 1, m),
{
    let start = InstallModel::fresh(Kind::Plugin, data_dir, source, yes);
    lemma_manifest(start, events, k);
    lemma_agreed(start, events, k + 1);
    let s = start.after(events, k);
    let t = start.after(events, k + 1);
    assert(t == s.stepped(events[k]).0);
    assert(t.manifest == s.manifest);
    assert(was_read(events, k, s.manifest->0));
}

/// A refusal or a failure after the clone was made asks only for the clone to be removed,
/// and then says how it ended: nothing is left to do but that, whatever comes.
pub proof fn law_a_refusal_only_removes_the_clone(
    state: InstallModel,
    event: EventModel,
    next: EventModel,
    last: EventModel,
)
    requires
        state.wf(),
        state.stepped(event).0.stage is Leaving,
        !(state.stage is Leaving),
    ensures
        ({
            let (leaving, action) = state.stepped(event);
            let (over, then_action) = leaving.stepped(next);
            &&& action == ActionModel::RemoveClone(state.plan->0.staging)
            &&& next is Done ==> then_action == ActionModel::Finish(leaving.ending->0)
                && over.stage is Over
            &&& !(next is Done) ==> (over, then_action) == (leaving, ActionModel::Nothing)
            &&& over.stage is Over ==> over.stepped(last).1 is Nothing
        }),
        state.stage is Asking && (event matches EventModel::Answer(Ok(answer))
            && !crate::pkg::says_yes(answer)) && !state.yes ==> state.stepped(event).0.ending
            == Some(EndingModel::Cancelled("cancelled; nothing was installed"@)),
{
}

/// An event that is not waited for changes nothing.
pub proof fn law_stray_events_change_nothing(state: InstallModel, event: EventModel)
    requires
        state.wf(),
        state.stepped(event).1 is Nothing,
    ensures
        state.stepped(event).0 == state,
{
}

} // verus!
