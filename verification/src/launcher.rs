//! Installing, removing and reinstalling the launcher of a web app, as a
//! sequence of steps: the host performs each requested action with the
//! desktop portal or the file system and reports what came of it.

use crate::apps::{
    default_details, delete_app_details, deleted, desktop_id, diff_significance, get_app_details,
    id_to_desktop, lemma_save_keeps_others, opt_bytes, opt_details, saved, significance,
    stored_details, AppDetails, AppDetailsView, DiffSignificance, SettingsStore, StoreView,
};
use crate::outside::url_parsed;
use crate::util::validate_input;
use crate::ident::{
    collision_possible, gen_unique_id, is_generated_id, is_legacy, is_legacy_format,
};
use crate::text::{owned, str_eq, texts};
use vstd::prelude::*;
use vstd::string::StringExecFns;

verus! {

/// What the portal says when it rejects an icon.
pub const ICON_REJECTED: &'static str = "Dynamic launcher icon failed validation";

/// What the user is told when the portal rejects an icon.
pub const ICON_REJECTED_MESSAGE: &'static str = "Invalid icon, maybe bad size or format";

/// What the user is told when the portal fails without a message.
pub const UNKNOWN_ERROR: &'static str = "unknown";

/// What the user is told when a report does not answer the pending action.
pub const UNEXPECTED_EVENT: &'static str = "unexpected event";

/// What the user is told when a flow has nothing to remove or install.
pub const NOTHING_TO_DO: &'static str = "nothing to do";

/// What the user is told when a launcher is to be installed without an icon.
pub const NO_ICON: &'static str = "no icon";

/// How a launcher descriptor begins, up to the name of the app.
pub const ENTRY_HEAD: &'static str = "[Desktop Entry]\nName=";

/// What stands in a launcher descriptor between the name of the app and
/// its identifier.
pub const ENTRY_BODY: &'static str =
    "\nTerminal=false\nType=Application\nCategories=Network;\nExec=env spider ";

/// The launcher descriptor of an app: its name, and a command that starts
/// the host with the app's identifier as its only argument.
pub open spec fn desktop_entry_text(title: Seq<char>, id: Seq<char>) -> Seq<char> {
    ENTRY_HEAD@ + title + ENTRY_BODY@ + id
}

/// The launcher descriptor of the app `details`.
pub fn desktop_entry(details: &AppDetails) -> (r: String)
    ensures
        r@ == desktop_entry_text(details@.title, details@.id),
{
    let mut r = owned(ENTRY_HEAD);
    r.append(details.title.as_str());
    r.append(ENTRY_BODY);
    r.append(details.id.as_str());
    r
}

/// What the user is told when the portal refuses a request with `message`.
pub open spec fn portal_message(message: Option<Seq<char>>) -> Seq<char> {
    match message {
        None => UNKNOWN_ERROR@,
        Some(m) => if m == ICON_REJECTED@ {
            ICON_REJECTED_MESSAGE@
        } else {
            m
        },
    }
}

/// What the user is told when the portal refuses a request with `message`.
pub fn portal_error_message(message: Option<String>) -> (r: String)
    ensures
        r@ == portal_message(
            match message {
                Some(m) => Some(m@),
                None => None,
            },
        ),
{
    match message {
        None => owned(UNKNOWN_ERROR),
        Some(m) => if str_eq(m.as_str(), ICON_REJECTED) {
            owned(ICON_REJECTED_MESSAGE)
        } else {
            m
        },
    }
}

/// Where a flow stands: at its start, waiting for the report on one action,
/// or at its end.
#[derive(Debug, Clone, Copy, PartialEq, Eq, Structural)]
pub enum Stage {
    Start,
    AwaitIcon,
    AwaitCopy,
    AwaitRemoveLauncher,
    AwaitRemoveDirs,
    AwaitPrepare,
    AwaitInstall,
    Done,
    Failed,
}

/// What the host reports to a flow.
#[derive(Debug)]
pub enum Event {
    /// The flow is to begin.
    Started,
    /// The icon of the launcher was fetched.
    Icon(Vec<u8>),
    /// The portal granted the installation and gave a token for it.
    Granted(String),
    /// The portal refused the request, with or without a message.
    Refused(Option<String>),
    /// The requested action was done.
    Succeeded,
    /// The requested action failed, or the user cancelled it.
    Failed(String),
}

/// What an `Event` holds, as mathematical values.
pub enum EventView {
    Started,
    Icon(Seq<u8>),
    Granted(Seq<char>),
    Refused(Option<Seq<char>>),
    Succeeded,
    Failed(Seq<char>),
}

impl View for Event {
    type V = EventView;

    open spec fn view(&self) -> EventView {
        match self {
            Event::Started => EventView::Started,
            Event::Icon(bytes) => EventView::Icon(bytes@),
            Event::Granted(token) => EventView::Granted(token@),
            Event::Refused(message) => EventView::Refused(
                match message {
                    Some(m) => Some(m@),
                    None => None,
                },
            ),
            Event::Succeeded => EventView::Succeeded,
            Event::Failed(message) => EventView::Failed(message@),
        }
    }
}

/// What a flow asks the host to do next.
#[derive(Debug)]
pub enum Action {
    /// Fetch the icon of the launcher `desktop_id` from the portal.
    FetchIcon { desktop_id: String },
    /// Copy the storage directories of the app `old_id` to `new_id`.
    CopyDirs { old_id: String, new_id: String },
    /// Ask the portal to remove the launcher `desktop_id`.
    RemoveLauncher { desktop_id: String },
    /// Remove the storage directories of the app `id`.
    RemoveDirs { id: String },
    /// Ask the portal, and through it the user, for leave to install a
    /// launcher with this title and icon.
    PrepareInstall { title: String, icon: Vec<u8> },
    /// Ask the portal to install the launcher that `token` was granted for.
    InstallLauncher { token: String, desktop_id: String, desktop_entry: String },
    /// The flow is done.
    Finish,
    /// The flow failed; the user is to be told why.
    Fail { message: String },
}

/// What an `Action` holds, as mathematical values.
pub enum ActionView {
    FetchIcon { desktop_id: Seq<char> },
    CopyDirs { old_id: Seq<char>, new_id: Seq<char> },
    RemoveLauncher { desktop_id: Seq<char> },
    RemoveDirs { id: Seq<char> },
    PrepareInstall { title: Seq<char>, icon: Seq<u8> },
    InstallLauncher { token: Seq<char>, desktop_id: Seq<char>, desktop_entry: Seq<char> },
    Finish,
    Fail { message: Seq<char> },
}

impl View for Action {
    type V = ActionView;

    open spec fn view(&self) -> ActionView {
        match self {
            Action::FetchIcon { desktop_id } => ActionView::FetchIcon { desktop_id: desktop_id@ },
            Action::CopyDirs { old_id, new_id } => ActionView::CopyDirs {
                old_id: old_id@,
                new_id: new_id@,
            },
            Action::RemoveLauncher { desktop_id } => ActionView::RemoveLauncher {
                desktop_id: desktop_id@,
            },
            Action::RemoveDirs { id } => ActionView::RemoveDirs { id: id@ },
            Action::PrepareInstall { title, icon } => ActionView::PrepareInstall {
                title: title@,
                icon: icon@,
            },
            Action::InstallLauncher { token, desktop_id, desktop_entry } => ActionView::InstallLauncher {
                token: token@,
                desktop_id: desktop_id@,
                desktop_entry: desktop_entry@,
            },
            Action::Finish => ActionView::Finish,
            Action::Fail { message } => ActionView::Fail { message: message@ },
        }
    }
}

/// A flow: the app to remove, if any, the record to install, if any, the
/// icon to install it with, once it is known, and the stage reached.
#[derive(Debug)]
pub struct Flow {
    pub stage: Stage,
    pub remove: Option<String>,
    pub install: Option<AppDetails>,
    pub icon: Option<Vec<u8>>,
}

/// What a `Flow` holds, as mathematical values.
pub struct FlowView {
    pub stage: Stage,
    pub remove: Option<Seq<char>>,
    pub install: Option<AppDetailsView>,
    pub icon: Option<Seq<u8>>,
}

impl View for Flow {
    type V = FlowView;

    open spec fn view(&self) -> FlowView {
        FlowView {
            stage: self.stage,
            remove: match self.remove {
                Some(id) => Some(id@),
                None => None,
            },
            install: opt_details(self.install),
            icon: opt_bytes(self.icon),
        }
    }
}

/// The flow fails with `message`; the store stays as it is.
pub open spec fn failing(flow: FlowView, message: Seq<char>, store: StoreView) -> (
    FlowView,
    ActionView,
    StoreView,
) {
    (FlowView { stage: Stage::Failed, ..flow }, ActionView::Fail { message }, store)
}

/// The flow turns to installing its record: it asks for leave to install,
/// or fails where it has no record or no icon.
pub open spec fn preparing(flow: FlowView, store: StoreView) -> (FlowView, ActionView, StoreView) {
    match (flow.install, flow.icon) {
        (Some(d), Some(icon)) => (
            FlowView { stage: Stage::AwaitPrepare, ..flow },
            ActionView::PrepareInstall { title: d.title, icon },
            store,
        ),
        _ => failing(flow, NO_ICON@, store),
    }
}

/// The flow turns to removing the app `old`: it asks for the removal of the
/// launcher.
pub open spec fn removing(flow: FlowView, old: Seq<char>, store: StoreView) -> (
    FlowView,
    ActionView,
    StoreView,
) {
    (
        FlowView { stage: Stage::AwaitRemoveLauncher, ..flow },
        ActionView::RemoveLauncher { desktop_id: desktop_id(old) },
        store,
    )
}

/// One step of a flow: from the flow, the host's report and the store to
/// the flow after the step, the action asked for next, and the store after
/// the step.
///
/// A flow that has a record but no icon first fetches the icon of the
/// launcher. A record is installed by asking for leave, then installing the
/// launcher, and is saved only after the portal has confirmed the launcher.
/// An app is removed by removing its launcher; its record is deleted as soon
/// as the portal has confirmed that, and its storage directories are removed
/// last, as far as that succeeds: what is left of them is swept away later.
/// A flow that both installs a record and removes an app copies the storage
/// directories first, then installs the record, and removes the old app only
/// after the new one is installed and saved. A report of failure, and a
/// report that does not answer the pending action, ends the flow in failure,
/// but for the removal of directories, whose failure ends it in success.
pub open spec fn next(flow: FlowView, event: EventView, store: StoreView) -> (
    FlowView,
    ActionView,
    StoreView,
) {
    match flow.stage {
        Stage::Start => match event {
            EventView::Started => match (flow.install, flow.icon, flow.remove) {
                (Some(d), None, remove) => (
                    FlowView { stage: Stage::AwaitIcon, ..flow },
                    ActionView::FetchIcon {
                        desktop_id: desktop_id(
                            match remove {
                                Some(old) => old,
                                None => d.id,
                            },
                        ),
                    },
                    store,
                ),
                (Some(_), Some(_), _) => preparing(flow, store),
                (None, _, Some(old)) => removing(flow, old, store),
                (None, _, None) => failing(flow, NOTHING_TO_DO@, store),
            },
            _ => failing(flow, UNEXPECTED_EVENT@, store),
        },
        Stage::AwaitIcon => match event {
            EventView::Icon(bytes) => {
                let with_icon = FlowView { icon: Some(bytes), ..flow };
                match (flow.remove, flow.install) {
                    (Some(old), Some(d)) => (
                        FlowView { stage: Stage::AwaitCopy, ..with_icon },
                        ActionView::CopyDirs { old_id: old, new_id: d.id },
                        store,
                    ),
                    _ => preparing(with_icon, store),
                }
            },
            EventView::Failed(message) => failing(flow, message, store),
            _ => failing(flow, UNEXPECTED_EVENT@, store),
        },
        Stage::AwaitCopy => match event {
            EventView::Succeeded => preparing(flow, store),
            EventView::Failed(message) => failing(flow, message, store),
            _ => failing(flow, UNEXPECTED_EVENT@, store),
        },
        Stage::AwaitPrepare => match event {
            EventView::Granted(token) => match flow.install {
                Some(d) => (
                    FlowView { stage: Stage::AwaitInstall, ..flow },
                    ActionView::InstallLauncher {
                        token,
                        desktop_id: desktop_id(d.id),
                        desktop_entry: desktop_entry_text(d.title, d.id),
                    },
                    store,
                ),
                None => failing(flow, UNEXPECTED_EVENT@, store),
            },
            EventView::Refused(message) => failing(flow, portal_message(message), store),
            EventView::Failed(message) => failing(flow, message, store),
            _ => failing(flow, UNEXPECTED_EVENT@, store),
        },
        Stage::AwaitInstall => match event {
            EventView::Succeeded => match flow.install {
                Some(d) => match flow.remove {
                    Some(old) => removing(flow, old, saved(store, d)),
                    None => (
                        FlowView { stage: Stage::Done, ..flow },
                        ActionView::Finish,
                        saved(store, d),
                    ),
                },
                None => failing(flow, UNEXPECTED_EVENT@, store),
            },
            EventView::Failed(message) => failing(flow, message, store),
            _ => failing(flow, UNEXPECTED_EVENT@, store),
        },
        Stage::AwaitRemoveLauncher => match event {
            EventView::Succeeded => match flow.remove {
                Some(old) => (
                    FlowView { stage: Stage::AwaitRemoveDirs, ..flow },
                    ActionView::RemoveDirs { id: old },
                    deleted(store, old),
                ),
                None => failing(flow, UNEXPECTED_EVENT@, store),
            },
            EventView::Failed(message) => failing(flow, message, store),
            _ => failing(flow, UNEXPECTED_EVENT@, store),
        },
        Stage::AwaitRemoveDirs => match event {
            EventView::Succeeded => (
                FlowView { stage: Stage::Done, ..flow },
                ActionView::Finish,
                store,
            ),
            EventView::Failed(_) => (
                FlowView { stage: Stage::Done, ..flow },
                ActionView::Finish,
                store,
            ),
            _ => failing(flow, UNEXPECTED_EVENT@, store),
        },
        Stage::Done => failing(flow, UNEXPECTED_EVENT@, store),
        Stage::Failed => failing(flow, UNEXPECTED_EVENT@, store),
    }
}

/// Whether a step saves or deletes a record, so that the store must be
/// written after it: the step that answers a confirmed installation, and
/// the step that answers a confirmed removal of a launcher.
pub open spec fn commits(flow: FlowView, event: EventView) -> bool {
    event == EventView::Succeeded && ((flow.stage == Stage::AwaitInstall && flow.install is Some)
        || (flow.stage == Stage::AwaitRemoveLauncher && flow.remove is Some))
}

/// What a step of a flow gives: the action to perform next, and whether the
/// store must be written before that.
#[derive(Debug)]
pub struct Step {
    pub action: Action,
    pub write_store: bool,
}

/// The flow that migrates or refreshes the app `details`: an app with an
/// identifier of the current length is installed anew under its identifier;
/// an app with an older identifier is installed as `fresh`, and removed
/// under its old identifier once that is done.
pub open spec fn reinstall_plan(details: AppDetailsView, legacy: bool, fresh: Seq<char>) -> FlowView {
    if legacy {
        FlowView {
            stage: Stage::Start,
            remove: Some(details.id),
            install: Some(AppDetailsView { id: fresh, ..details }),
            icon: None,
        }
    } else {
        FlowView { stage: Stage::Start, remove: None, install: Some(details), icon: None }
    }
}

/// Whether `flow` is the reinstall plan for `details` with the identifier
/// `fresh`, which, where it is needed, has the shape of a drawn identifier
/// and is not among `known`.
pub open spec fn reinstall_drawn(
    flow: FlowView,
    details: AppDetailsView,
    legacy: bool,
    known: Seq<Seq<char>>,
    fresh: Seq<char>,
) -> bool {
    &&& flow == reinstall_plan(details, legacy, fresh)
    &&& legacy ==> is_generated_id(fresh) && !known.contains(fresh)
}

/// Why no reinstall flow could be made.
#[derive(Debug, Clone, Copy, PartialEq, Eq, Structural)]
pub enum ReinstallError {
    /// The store holds no record of the app.
    UnknownApp,
    /// No fresh identifier could be drawn.
    NoFreshId,
}

impl ReinstallError {
    /// The sentence that tells the user of this error.
    pub open spec fn spec_message(&self) -> Seq<char> {
        match self {
            ReinstallError::UnknownApp => "failed to get app details"@,
            ReinstallError::NoFreshId => "failed to generate an app id"@,
        }
    }

    /// A sentence for the user.
    pub fn message(&self) -> (r: String)
        ensures
            r@ == self.spec_message(),
    {
        match self {
            ReinstallError::UnknownApp => owned("failed to get app details"),
            ReinstallError::NoFreshId => owned("failed to generate an app id"),
        }
    }
}

/// The flow that installs an app: it asks the portal for leave, installs
/// the launcher of `details` with `icon`, and then saves the record.
pub open spec fn install_plan(details: AppDetailsView, icon: Seq<u8>) -> FlowView {
    FlowView { stage: Stage::Start, remove: None, install: Some(details), icon: Some(icon) }
}

/// The flow that removes the launcher, the storage directories and the
/// stored record of the app `id`.
pub open spec fn uninstall_plan(id: Seq<char>) -> FlowView {
    FlowView { stage: Stage::Start, remove: Some(id), install: None, icon: None }
}

/// Begins the installation of the app `details` with `icon`.
pub fn install_app(details: AppDetails, icon: Vec<u8>) -> (flow: Flow)
    ensures
        flow@ == install_plan(details@, icon@),
{
    Flow { stage: Stage::Start, remove: None, install: Some(details), icon: Some(icon) }
}

/// Begins the removal of the app `id`.
pub fn uninstall_app(id: &str) -> (flow: Flow)
    ensures
        flow@ == uninstall_plan(id@),
{
    Flow { stage: Stage::Start, remove: Some(owned(id)), install: None, icon: None }
}

impl Flow {
    /// The flow that reinstalls the app `details`, which gets the
    /// identifier `fresh` if its own is of an older format.
    pub fn reinstall(details: AppDetails, fresh: String) -> (flow: Flow)
        ensures
            flow@ == reinstall_plan(details@, is_legacy(details.id@), fresh@),
    {
        if is_legacy_format(details.id.as_str()) {
            let old = details.id.clone();
            let moved = AppDetails {
                id: fresh,
                url: details.url,
                title: details.title,
                icon: details.icon,
                has_titlebar_color: details.has_titlebar_color,
                window_width: details.window_width,
                window_height: details.window_height,
                window_maximize: details.window_maximize,
                user_agent: details.user_agent,
            };
            Flow { stage: Stage::Start, remove: Some(old), install: Some(moved), icon: None }
        } else {
            Flow { stage: Stage::Start, remove: None, install: Some(details), icon: None }
        }
    }

    fn fail(&mut self, message: String) -> (action: Action)
        ensures
            final(self)@ == (FlowView { stage: Stage::Failed, ..old(self)@ }),
            action@ == (ActionView::Fail { message: message@ }),
    {
        self.stage = Stage::Failed;
        Action::Fail { message }
    }

    fn prepare(&mut self) -> (action: Action)
        ensures
            forall|store: StoreView|
                (final(self)@, action@, store) == #[trigger] preparing(old(self)@, store),
    {
        match (&self.install, &self.icon) {
            (Some(d), Some(icon)) => {
                let action = Action::PrepareInstall { title: d.title.clone(), icon: icon.clone() };
                self.stage = Stage::AwaitPrepare;
                action
            },
            _ => self.fail(owned(NO_ICON)),
        }
    }

    fn begin_removal(&mut self, old_id: &String) -> (action: Action)
        ensures
            forall|store: StoreView|
                (final(self)@, action@, store) == #[trigger] removing(old(self)@, old_id@, store),
    {
        self.stage = Stage::AwaitRemoveLauncher;
        Action::RemoveLauncher { desktop_id: id_to_desktop(old_id.as_str()) }
    }

    fn step_start(&mut self, event: Event, store: &SettingsStore) -> (action: Action)
        requires
            old(self).stage == Stage::Start,
        ensures
            (final(self)@, action@, store@) == next(old(self)@, event@, store@),
    {
        let ghost flow = self@;
        match event {
            Event::Started => {
                if self.install.is_some() {
                    if self.icon.is_none() {
                        let source = match clone_opt(&self.remove) {
                            Some(old) => old,
                            None => match &self.install {
                                Some(d) => d.id.clone(),
                                None => String::new(),
                            },
                        };
                        self.stage = Stage::AwaitIcon;
                        Action::FetchIcon { desktop_id: id_to_desktop(source.as_str()) }
                    } else {
                        let action = self.prepare();
                        assert((self@, action@, store@) == preparing(flow, store@));
                        action
                    }
                } else {
                    match clone_opt(&self.remove) {
                        Some(old) => {
                            let action = self.begin_removal(&old);
                            assert((self@, action@, store@) == removing(flow, old@, store@));
                            action
                        },
                        None => self.fail(owned(NOTHING_TO_DO)),
                    }
                }
            },
            _ => self.fail(owned(UNEXPECTED_EVENT)),
        }
    }

    fn step_icon(&mut self, event: Event, store: &SettingsStore) -> (action: Action)
        requires
            old(self).stage == Stage::AwaitIcon,
        ensures
            (final(self)@, action@, store@) == next(old(self)@, event@, store@),
    {
        match event {
            Event::Icon(bytes) => {
                self.icon = Some(bytes);
                let ghost with_icon = self@;
                let old = clone_opt(&self.remove);
                let new_id = match &self.install {
                    Some(d) => Some(d.id.clone()),
                    None => None,
                };
                match (old, new_id) {
                    (Some(old_id), Some(new_id)) => {
                        self.stage = Stage::AwaitCopy;
                        Action::CopyDirs { old_id, new_id }
                    },
                    _ => {
                        let action = self.prepare();
                        assert((self@, action@, store@) == preparing(with_icon, store@));
                        action
                    },
                }
            },
            Event::Failed(message) => self.fail(message),
            _ => self.fail(owned(UNEXPECTED_EVENT)),
        }
    }

    fn step_copy(&mut self, event: Event, store: &SettingsStore) -> (action: Action)
        requires
            old(self).stage == Stage::AwaitCopy,
        ensures
            (final(self)@, action@, store@) == next(old(self)@, event@, store@),
    {
        let ghost flow = self@;
        match event {
            Event::Succeeded => {
                let action = self.prepare();
                assert((self@, action@, store@) == preparing(flow, store@));
                action
            },
            Event::Failed(message) => self.fail(message),
            _ => self.fail(owned(UNEXPECTED_EVENT)),
        }
    }

    fn step_prepare(&mut self, event: Event, store: &SettingsStore) -> (action: Action)
        requires
            old(self).stage == Stage::AwaitPrepare,
        ensures
            (final(self)@, action@, store@) == next(old(self)@, event@, store@),
    {
        match event {
            Event::Granted(token) => match &self.install {
                Some(d) => {
                    let action = Action::InstallLauncher {
                        token,
                        desktop_id: id_to_desktop(d.id.as_str()),
                        desktop_entry: desktop_entry(d),
                    };
                    self.stage = Stage::AwaitInstall;
                    action
                },
                None => self.fail(owned(UNEXPECTED_EVENT)),
            },
            Event::Refused(message) => self.fail(portal_error_message(message)),
            Event::Failed(message) => self.fail(message),
            _ => self.fail(owned(UNEXPECTED_EVENT)),
        }
    }

    fn save_installed(&self, store: &mut SettingsStore) -> (done: bool)
        ensures
            done == (self@.install is Some),
            match self@.install {
                Some(d) => final(store)@ == saved(old(store)@, d),
                None => final(store)@ == old(store)@,
            },
    {
        match &self.install {
            Some(d) => {
                d.save(store);
                true
            },
            None => false,
        }
    }

    fn step_install(&mut self, event: Event, store: &mut SettingsStore) -> (action: Action)
        requires
            old(self).stage == Stage::AwaitInstall,
        ensures
            (final(self)@, action@, final(store)@) == next(old(self)@, event@, old(store)@),
    {
        let ghost flow = self@;
        match event {
            Event::Succeeded => {
                if self.save_installed(store) {
                    match clone_opt(&self.remove) {
                        Some(old) => {
                            let action = self.begin_removal(&old);
                            assert((self@, action@, store@) == removing(flow, old@, store@));
                            action
                        },
                        None => {
                            self.stage = Stage::Done;
                            Action::Finish
                        },
                    }
                } else {
                    self.fail(owned(UNEXPECTED_EVENT))
                }
            },
            Event::Failed(message) => self.fail(message),
            _ => self.fail(owned(UNEXPECTED_EVENT)),
        }
    }

    fn step_remove_launcher(&mut self, event: Event, store: &mut SettingsStore) -> (action: Action)
        requires
            old(self).stage == Stage::AwaitRemoveLauncher,
        ensures
            (final(self)@, action@, final(store)@) == next(old(self)@, event@, old(store)@),
    {
        match event {
            Event::Succeeded => match clone_opt(&self.remove) {
                Some(old) => {
                    delete_app_details(store, old.as_str());
                    self.stage = Stage::AwaitRemoveDirs;
                    Action::RemoveDirs { id: old }
                },
                None => self.fail(owned(UNEXPECTED_EVENT)),
            },
            Event::Failed(message) => self.fail(message),
            _ => self.fail(owned(UNEXPECTED_EVENT)),
        }
    }

    fn step_remove_dirs(&mut self, event: Event, store: &SettingsStore) -> (action: Action)
        requires
            old(self).stage == Stage::AwaitRemoveDirs,
        ensures
            (final(self)@, action@, store@) == next(old(self)@, event@, store@),
    {
        match event {
            Event::Succeeded => {
                self.stage = Stage::Done;
                Action::Finish
            },
            Event::Failed(_) => {
                self.stage = Stage::Done;
                Action::Finish
            },
            _ => self.fail(owned(UNEXPECTED_EVENT)),
        }
    }

    fn will_commit(&self, event: &Event) -> (r: bool)
        ensures
            r == commits(self@, event@),
    {
        match event {
            Event::Succeeded => match self.stage {
                Stage::AwaitInstall => self.install.is_some(),
                Stage::AwaitRemoveLauncher => self.remove.is_some(),
                _ => false,
            },
            _ => false,
        }
    }

    /// Takes one step: given the host's report on the pending action,
    /// updates the flow and the store, and returns the action to perform
    /// next and whether the store must be written first.
    pub fn step(&mut self, event: Event, store: &mut SettingsStore) -> (step: Step)
        ensures
            (final(self)@, step.action@, final(store)@) == next(old(self)@, event@, old(store)@),
            step.write_store == commits(old(self)@, event@),
            !step.write_store ==> final(store)@ == old(store)@,
    {
        let write_store = self.will_commit(&event);
        let action = match self.stage {
            Stage::Start => self.step_start(event, store),
            Stage::AwaitIcon => self.step_icon(event, store),
            Stage::AwaitCopy => self.step_copy(event, store),
            Stage::AwaitPrepare => self.step_prepare(event, store),
            Stage::AwaitInstall => self.step_install(event, store),
            Stage::AwaitRemoveLauncher => self.step_remove_launcher(event, store),
            Stage::AwaitRemoveDirs => self.step_remove_dirs(event, store),
            Stage::Done => self.fail(owned(UNEXPECTED_EVENT)),
            Stage::Failed => self.fail(owned(UNEXPECTED_EVENT)),
        };
        Step { action, write_store }
    }
}

fn clone_opt(s: &Option<String>) -> (r: Option<String>)
    ensures
        match (r, *s) {
            (Some(a), Some(b)) => a@ == b@,
            (None, None) => true,
            _ => false,
        },
{
    match s {
        Some(s) => Some(s.clone()),
        None => None,
    }
}

/// Makes the flow that reinstalls the app `id`: looks its record up in the
/// store and, where its identifier is of an older format, draws a fresh one
/// for it.
pub fn reinstall_app(store: &SettingsStore, id: &str) -> (r: Result<Flow, ReinstallError>)
    ensures
        stored_details(store@, id@) is None ==> r == Err::<Flow, ReinstallError>(
            ReinstallError::UnknownApp,
        ),
        stored_details(store@, id@) is Some && (!is_legacy(id@) || !collision_possible(
            store@.app_ids,
        )) ==> r is Ok,
        r matches Ok(flow) ==> stored_details(store@, id@) matches Some(details) && exists|
            fresh: Seq<char>,
        | #[trigger]
            reinstall_drawn(flow@, details, is_legacy(id@), store@.app_ids, fresh),
        r matches Err(e) ==> (e == ReinstallError::UnknownApp <==> stored_details(store@, id@)
            is None),
{
    let details = match get_app_details(store, id) {
        Some(details) => details,
        None => {
            return Err(ReinstallError::UnknownApp);
        },
    };
    assert(details.id@ == id@);
    let fresh = if is_legacy_format(id) {
        match gen_unique_id(&store.app_ids) {
            Some(fresh) => fresh,
            None => {
                return Err(ReinstallError::NoFreshId);
            },
        }
    } else {
        String::new()
    };
    let ghost d = details@;
    let ghost f = fresh@;
    let flow = Flow::reinstall(details, fresh);
    assert(stored_details(store@, id@) == Some(d));
    assert(reinstall_drawn(flow@, d, is_legacy(id@), store@.app_ids, f));
    Ok(flow)
}

/// A step that ends in failure leaves the store as it was.
pub proof fn lemma_failure_keeps_store(flow: FlowView, event: EventView, store: StoreView)
    ensures
        next(flow, event, store).0.stage == Stage::Failed ==> next(flow, event, store).2 == store,
{
}

/// The store changes in two steps only: when the installation of a launcher
/// is confirmed, the record is saved; when the removal of a launcher is
/// confirmed, its record is deleted. After every other step the store is as
/// it was.
pub proof fn lemma_store_changes_when_confirmed(flow: FlowView, event: EventView, store: StoreView)
    ensures
        !commits(flow, event) ==> next(flow, event, store).2 == store,
        flow.stage == Stage::AwaitInstall && event == EventView::Succeeded ==> (
        flow.install matches Some(d) ==> next(flow, event, store).2 == saved(store, d)),
        flow.stage == Stage::AwaitRemoveLauncher && event == EventView::Succeeded ==> (
        flow.remove matches Some(old) ==> next(flow, event, store).2 == deleted(store, old)),
{
}

/// A record goes with its launcher. When the portal has removed the
/// launcher, the record is deleted in that very step; when the portal fails
/// to remove it, the record stays. Whether the storage directories could be
/// removed afterwards changes neither the store nor the outcome: the flow
/// ends in success.
pub proof fn lemma_record_goes_with_launcher(
    flow: FlowView,
    old: Seq<char>,
    message: Seq<char>,
    store: StoreView,
)
    requires
        flow.remove == Some(old),
    ensures
        flow.stage == Stage::AwaitRemoveLauncher ==> {
            &&& next(flow, EventView::Succeeded, store).2 == deleted(store, old)
            &&& next(flow, EventView::Succeeded, store).0.stage == Stage::AwaitRemoveDirs
            &&& next(flow, EventView::Failed(message), store).2 == store
            &&& next(flow, EventView::Failed(message), store).0.stage == Stage::Failed
        },
        flow.stage == Stage::AwaitRemoveDirs ==> {
            &&& next(flow, EventView::Succeeded, store).0.stage == Stage::Done
            &&& next(flow, EventView::Failed(message), store).0.stage == Stage::Done
            &&& next(flow, EventView::Succeeded, store).2 == store
            &&& next(flow, EventView::Failed(message), store).2 == store
        },
{
}

/// When an app moves to a new identifier, the old app stays as it is until
/// the new one is installed and saved: no step before that changes what the
/// store holds for the old identifier, and the removal of the old launcher
/// is asked for only in the step that saves the new record.
pub proof fn lemma_old_app_kept_until_new_installed(
    flow: FlowView,
    old: Seq<char>,
    d: AppDetailsView,
    event: EventView,
    store: StoreView,
)
    requires
        flow.remove == Some(old),
        flow.install == Some(d),
        d.id != old,
        flow.stage != Stage::AwaitRemoveLauncher,
    ensures
        stored_details(next(flow, event, store).2, old) == stored_details(store, old),
        next(flow, event, store).2.app_ids.contains(old) == store.app_ids.contains(old),
        next(flow, event, store).0.stage == Stage::AwaitRemoveLauncher ==> flow.stage
            == Stage::AwaitInstall && event == EventView::Succeeded && next(flow, event, store).2
            == saved(store, d),
        next(flow, event, store).1 is RemoveLauncher ==> next(flow, event, store).0.stage
            == Stage::AwaitRemoveLauncher,
{
    lemma_save_keeps_others(store, d, old);
}

/// When copying the directories fails, the flow ends: nothing is removed,
/// nothing is installed, and the store is as it was, so the old app is
/// still known and the new identifier is not.
pub proof fn lemma_copy_failure(flow: FlowView, message: Seq<char>, store: StoreView)
    requires
        flow.stage == Stage::AwaitCopy,
    ensures
        next(flow, EventView::Failed(message), store) == failing(flow, message, store),
        next(flow, EventView::Failed(message), store).2 == store,
        next(
            next(flow, EventView::Failed(message), store).0,
            EventView::Succeeded,
            store,
        ).2 == store,
{
}

/// A flow that has ended stays ended: every further step fails and leaves
/// the store as it is.
pub proof fn lemma_ended_flow(flow: FlowView, event: EventView, store: StoreView)
    requires
        flow.stage == Stage::Done || flow.stage == Stage::Failed,
    ensures
        next(flow, event, store).0.stage == Stage::Failed,
        next(flow, event, store).2 == store,
{
}

/// Why no app could be created.
#[derive(Debug, Clone, Copy, PartialEq, Eq, Structural)]
pub enum CreateError {
    /// The URL is no URL, the icon is missing, or the title is empty.
    InvalidInput,
    /// No fresh identifier could be drawn.
    NoFreshId,
}

impl CreateError {
    /// The sentence that tells the user of this error.
    pub open spec fn spec_message(&self) -> Seq<char> {
        match self {
            CreateError::InvalidInput => "a URL, a title and an icon are needed"@,
            CreateError::NoFreshId => "failed to generate an app id"@,
        }
    }

    /// A sentence for the user.
    pub fn message(&self) -> (r: String)
        ensures
            r@ == self.spec_message(),
    {
        match self {
            CreateError::InvalidInput => owned("a URL, a title and an icon are needed"),
            CreateError::NoFreshId => owned("failed to generate an app id"),
        }
    }
}

/// Whether `flow` installs a new app with the entered title, URL and icon
/// under the identifier `id`, which has the shape of a drawn identifier and
/// is not among `known`.
pub open spec fn creation_drawn(
    flow: FlowView,
    title: Seq<char>,
    url: Seq<char>,
    icon: Seq<u8>,
    known: Seq<Seq<char>>,
    id: Seq<char>,
) -> bool {
    &&& flow == install_plan(AppDetailsView { id, url, title, ..default_details() }, icon)
    &&& is_generated_id(id)
    &&& !known.contains(id)
}

/// Begins the creation of an app from what the user entered: checks the
/// input, draws a fresh identifier, and makes the flow that installs the
/// new app.
pub fn create_app(app_ids: &Vec<String>, title: String, url: String, icon: Option<Vec<u8>>) -> (r:
    Result<Flow, CreateError>)
    ensures
        !(url_parsed(url@) is Some && icon is Some && title@.len() > 0) ==> r == Err::<
            Flow,
            CreateError,
        >(CreateError::InvalidInput),
        url_parsed(url@) is Some && icon is Some && title@.len() > 0 && !collision_possible(
            texts(app_ids@),
        ) ==> r is Ok,
        r matches Ok(flow) ==> icon matches Some(bytes) && exists|id: Seq<char>| #[trigger]
            creation_drawn(flow@, title@, url@, bytes@, texts(app_ids@), id),
        r matches Err(e) ==> (e == CreateError::InvalidInput <==> !(url_parsed(url@) is Some
            && icon is Some && title@.len() > 0)),
{
    if !validate_input(url.as_str(), &icon, title.as_str()) {
        return Err(CreateError::InvalidInput);
    }
    let bytes = match icon {
        Some(bytes) => bytes,
        None => {
            return Err(CreateError::InvalidInput);
        },
    };
    let id = match gen_unique_id(app_ids) {
        Some(id) => id,
        None => {
            return Err(CreateError::NoFreshId);
        },
    };
    let ghost drawn = id@;
    let flow = install_app(AppDetails::new(id, title, url), bytes);
    assert(creation_drawn(flow@, title@, url@, bytes@, texts(app_ids@), drawn));
    Ok(flow)
}

/// What saving an edited record came to.
#[derive(Debug)]
pub enum SaveOutcome {
    /// Nothing that counts was changed: nothing was done.
    Unchanged,
    /// Only settings were changed: the record was saved.
    Saved,
    /// The title or the icon was changed: the launcher must be installed
    /// anew, by this flow, which saves the record at its end.
    Reinstall(Flow),
    /// The title or the icon was changed, but the record has no icon to
    /// install the launcher with: nothing was done.
    MissingIcon,
}

/// The store after the edited record `unsaved` of the app `current` was
/// saved: changed only where settings alone differ.
pub open spec fn store_after_edit(
    current: AppDetailsView,
    unsaved: AppDetailsView,
    store: StoreView,
) -> StoreView {
    if significance(current, unsaved) == DiffSignificance::Settings {
        saved(store, unsaved)
    } else {
        store
    }
}

/// Saves the edited record `unsaved` of the app `current`, as far as that
/// needs no leave from the portal.
pub fn save_details(current: &AppDetails, unsaved: AppDetails, store: &mut SettingsStore) -> (r:
    SaveOutcome)
    ensures
        final(store)@ == store_after_edit(current@, unsaved@, old(store)@),
        match significance(current@, unsaved@) {
            DiffSignificance::NoDifference => r is Unchanged,
            DiffSignificance::Settings => r is Saved,
            DiffSignificance::DesktopReinstall => match unsaved@.icon {
                Some(icon) => r matches SaveOutcome::Reinstall(flow) && flow@ == install_plan(
                    unsaved@,
                    icon,
                ),
                None => r is MissingIcon,
            },
        },
{
    match diff_significance(current, &unsaved) {
        DiffSignificance::NoDifference => SaveOutcome::Unchanged,
        DiffSignificance::Settings => {
            unsaved.save(store);
            SaveOutcome::Saved
        },
        DiffSignificance::DesktopReinstall => {
            let icon = match &unsaved.icon {
                Some(icon) => Some(icon.clone()),
                None => None,
            };
            match icon {
                Some(icon) => SaveOutcome::Reinstall(install_app(unsaved, icon)),
                None => SaveOutcome::MissingIcon,
            }
        },
    }
}

} // verus!
