//! The installer shell around the engine's downloader: a download's
//! progress state machine, the top-level application state, and the flat
//! button styling.  The network transfer itself lives outside; this is
//! the bookkeeping every transfer event drives.

use crate::num::FRAC_ONE;
use crate::render::Color;
use vstd::prelude::*;

verus! {

/// A transfer event: it started, advanced to a fraction of the total
/// (in `FRAC_ONE` subunits), finished, or failed.
#[derive(Clone, Copy, Debug, PartialEq, Eq, Structural)]
pub enum Progress {
    Started,
    Advanced(i64),
    Finished,
    Errored,
}

/// Where a download stands.
#[derive(Clone, Copy, Debug, PartialEq, Eq, Structural)]
pub enum State {
    Idle,
    Downloading { progress: i64 },
    Finished,
    Errored,
}

/// One tracked download: its identifier, its target, and where it
/// stands.
pub struct Download {
    pub id: u8,
    pub url: Vec<u8>,
    pub state: State,
}

impl Download {
    /// A fresh, idle download.
    pub fn new(id: u8, url: Vec<u8>) -> (r: Download)
        ensures
            r.id == id,
            r.url == url,
            r.state == State::Idle,
    {
        Download { id, url, state: State::Idle }
    }

    /// Starts or restarts the download unless one is already running.
    pub fn start(&mut self)
        ensures
            final(self).id == old(self).id,
            final(self).url == old(self).url,
            final(self).state == match old(self).state {
                State::Idle | State::Finished | State::Errored => State::Downloading {
                    progress: 0,
                },
                State::Downloading { progress } => State::Downloading { progress },
            },
    {
        match self.state {
            State::Idle | State::Finished | State::Errored => {
                self.state = State::Downloading { progress: 0 };
            },
            State::Downloading { .. } => {},
        }
    }

    /// Whether a transfer should be running right now.
    pub fn wants_transfer(&self) -> (r: bool)
        ensures
            r == (self.state is Downloading),
    {
        match self.state {
            State::Downloading { .. } => true,
            _ => false,
        }
    }

    /// Feeds one transfer event into the state machine.
    pub fn update(&mut self, progress: Progress)
        ensures
            final(self).id == old(self).id,
            final(self).url == old(self).url,
            final(self).state == match progress {
                Progress::Started => State::Downloading { progress: 0 },
                Progress::Advanced(p) => State::Downloading { progress: p },
                Progress::Finished => State::Finished,
                Progress::Errored => State::Errored,
            },
    {
        match progress {
            Progress::Started => {
                self.state = State::Downloading { progress: 0 };
            },
            Progress::Advanced(p) => {
                self.state = State::Downloading { progress: p };
            },
            Progress::Finished => {
                self.state = State::Finished;
            },
            Progress::Errored => {
                self.state = State::Errored;
            },
        }
    }

    /// The fraction to show on the progress bar, in `FRAC_ONE` subunits.
    pub fn view_progress(&self) -> (r: i64)
        ensures
            r == match self.state {
                State::Idle => 0int,
                State::Downloading { progress } => progress as int,
                State::Finished => FRAC_ONE as int,
                State::Errored => 0int,
            },
    {
        match self.state {
            State::Idle => 0,
            State::Downloading { progress } => progress,
            State::Finished => FRAC_ONE,
            State::Errored => 0,
        }
    }
}

/// A message the installer shell handles.
#[derive(Clone, Copy, Debug, PartialEq, Eq, Structural)]
pub enum Message {
    Close,
    LauncherDownloadProgress(Progress),
}

/// The installer shell: one download view.
pub struct App {
    pub download_view: Download,
}

impl App {
    /// A fresh shell with its download already started.
    pub fn new(url: Vec<u8>) -> (r: App)
        ensures
            r.download_view.id == 0,
            r.download_view.url == url,
            r.download_view.state == (State::Downloading { progress: 0 }),
    {
        let mut download_view = Download::new(0, url);
        download_view.start();
        App { download_view }
    }

    /// The window title.
    pub fn title(&self) -> (r: &'static str)
        ensures
            r@ == "Installer"@,
    {
        "Installer"
    }

    /// Handles one message; reports whether the shell should close.
    pub fn update(&mut self, message: Message) -> (close: bool)
        ensures
            close == (message is Close),
            message is Close ==> final(self).download_view.state == old(self).download_view.state,
            message matches Message::LauncherDownloadProgress(p) ==> final(self).download_view.state == match p {
                Progress::Started => State::Downloading { progress: 0 },
                Progress::Advanced(q) => State::Downloading { progress: q },
                Progress::Finished => State::Finished,
                Progress::Errored => State::Errored,
            },
            final(self).download_view.id == old(self).download_view.id,
            final(self).download_view.url == old(self).download_view.url,
    {
        match message {
            Message::Close => true,
            Message::LauncherDownloadProgress(p) => {
                self.download_view.update(p);
                false
            },
        }
    }
}

/// What a flat button looks like.
#[derive(Clone, Copy, Debug, PartialEq, Eq, Structural)]
pub struct Appearance {
    pub background: Option<Color>,
    pub text_color: Color,
}

/// The transparent button style: white text on no background, in every
/// interaction state.
#[derive(Clone, Copy, Debug, PartialEq, Eq, Structural)]
pub struct ButtonStyle;

impl ButtonStyle {
    /// The resting appearance.
    pub fn active(&self) -> (r: Appearance)
        ensures
            r.background is None,
            r.text_color == (Color { r: 255, g: 255, b: 255, a: 255 }),
    {
        Appearance { background: None, text_color: Color { r: 255, g: 255, b: 255, a: 255 } }
    }

    /// Hovering changes nothing.
    pub fn hovered(&self) -> (r: Appearance)
        ensures
            r == self.active_spec(),
    {
        self.active()
    }

    /// Pressing changes nothing.
    pub fn pressed(&self) -> (r: Appearance)
        ensures
            r == self.active_spec(),
    {
        self.active()
    }

    /// The resting appearance, as a value.
    pub open spec fn active_spec(&self) -> Appearance {
        Appearance { background: None, text_color: Color { r: 255, g: 255, b: 255, a: 255 } }
    }
}

} // verus!
