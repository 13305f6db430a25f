//! What the application has to do, and how the user wants it.
use crate::scroll;
use crate::scroll::ScrollCommand;
use crate::select;
use vstd::prelude::*;

verus! {

/// The actions the application does by itself.
pub enum Internal {
    /// leave the application
    Quit,
    /// run the job again
    ReRun,
}

/// Something the application can be asked.
pub enum Action {
    Internal(Internal),
    /// run the job of that name
    Job(String),
}

/// Whether the job is run again when something changed.
#[derive(Clone, Copy)]
pub enum AutoRefresh {
    Enabled,
    Paused,
}

impl AutoRefresh {
    /// Tells whether the job is run again when something changed.
    pub fn is_enabled(self) -> (r: bool)
        ensures
            r == (self is Enabled),
    {
        match self {
            AutoRefresh::Enabled => true,
            AutoRefresh::Paused => false,
        }
    }
}

/// What's needed to run a job.
pub struct Task {
    /// the optional RUST_BACKTRACE env var to set
    pub backtrace: Option<&'static str>,
}

/// The action bound to a key.
pub struct KeyBinding {
    pub key: String,
    pub action: Action,
}

pub struct KeyBindings {
    pub bindings: Vec<KeyBinding>,
}

/// An export of the report.
pub struct Export {
    pub name: String,
    /// whether the export is done for every result
    pub auto: bool,
}

/// What the user configured.
pub struct Settings {
    pub summary: bool,
    pub wrap: bool,
    pub reverse: bool,
    pub show_changes_count: bool,
    /// whether there's a line of help
    pub help_line: bool,
    /// the number of lines of the help page
    pub help_page_height: usize,
    pub keybindings: KeyBindings,
    pub exports: Vec<Export>,
}

/// The indexes, among the `n` first exports, of those which are done for
/// every result.
pub open spec fn auto_exports(exports: Seq<Export>, n: int) -> Seq<usize> {
    select::selected(|i: int| exports[i].auto, n)
}

impl Settings {
    /// Finds the exports which are done for every result.
    pub fn auto_exports(&self) -> (r: Vec<usize>)
        ensures
            r@ == auto_exports(self.exports@, self.exports@.len() as int),
    {
        let mut r: Vec<usize> = Vec::new();
        for i in 0..self.exports.len()
            invariant
                r@ == auto_exports(self.exports@, i as int),
        {
            if self.exports[i].auto {
                r.push(i);
            }
        }
        r
    }
}

/// What has to be run.
pub struct Job {
    /// whether the result of the last run is kept during a new one
    pub background: bool,
    /// what must be done when the job is a success
    pub on_success: Option<Action>,
}

/// The job to run, in its context.
pub struct Mission<'s> {
    pub location_name: String,
    pub job_name: String,
    pub job: Job,
    pub settings: &'s Settings,
}

impl<'s> Mission<'s> {
    /// What must be done when the job is a success.
    pub fn on_success(&self) -> (r: &Option<Action>)
        ensures
            *r == self.job.on_success,
    {
        &self.job.on_success
    }
}

/// The page of help which may cover the rest.
#[derive(Clone, Copy)]
pub struct HelpPage {
    /// the number of lines of the page
    pub content_height: usize,
    /// the number of lines hidden on top
    pub scroll: usize,
}

impl HelpPage {
    /// Builds the page, to be read from the top.
    pub fn new(settings: &Settings) -> (r: HelpPage)
        ensures
            r == (HelpPage { content_height: settings.help_page_height, scroll: 0 }),
    {
        HelpPage { content_height: settings.help_page_height, scroll: 0 }
    }

    /// The page, once scrolled in an area of this height.
    pub open spec fn scrolled(self, cmd: ScrollCommand, area_height: int) -> HelpPage {
        HelpPage {
            scroll: scroll::fixed_scroll(
                cmd.target(self.scroll as int, self.content_height as int, area_height),
                self.content_height as int,
                area_height,
            ) as usize,
            ..self
        }
    }

    /// Scrolls in the page, shown in an area of this height.
    pub fn apply_scroll_command(&mut self, cmd: ScrollCommand, area_height: usize)
        ensures
            *final(self) == old(self).scrolled(cmd, area_height as int),
    {
        self.scroll = cmd.apply(self.scroll, self.content_height, area_height);
    }
}

} // verus!
