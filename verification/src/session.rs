//! The session: the explorer, and over it at most one preview. A key
//! press is looked up by mode and key, changes the state, and may ask
//! the caller for work on the file system, the browser or the
//! clipboard; the caller hands back how that work ended.

use crate::command::{command_of, Command, CommandModel};
use crate::entries::{listing_sorted, Entry};
use crate::explorer::{first_cursor, ExplorerModel, ExplorerState};
use crate::paths::{extension_of, has_extension};
use crate::preview::{
    CopyOutcome, CopyOutcomeModel, DocumentKind, PreviewModel, PreviewState,
};
use crate::markdown::markdown_html;
use vstd::prelude::*;
use vstd::string::StringExecFns;

verus! {

/// A key press.
#[derive(Clone, Copy, Debug, PartialEq, Eq)]
pub enum Key {
    /// A character key.
    Char(char),
    Up,
    Down,
    Left,
    Right,
    Enter,
    Backspace,
    Esc,
    /// Any other key.
    Other,
}

/// Which of the two modes is active.
#[derive(Clone, Copy, Debug, PartialEq, Eq, Structural)]
pub enum Mode {
    /// The directory listing is shown.
    Explorer,
    /// A document is shown.
    Preview,
}

/// What a key asks of the explorer while the command line is closed.
#[derive(Clone, Copy, Debug, PartialEq, Eq, Structural)]
pub enum ExplorerIntent {
    Next,
    Previous,
    Parent,
    Enter,
    CommandMode,
    Nothing,
}

/// What a key asks of the open command line.
#[derive(Clone, Copy, Debug, PartialEq, Eq)]
pub enum CommandIntent {
    Execute,
    Append(char),
    Backspace,
    Cancel,
    Nothing,
}

/// What a key asks of the preview.
#[derive(Clone, Copy, Debug, PartialEq, Eq, Structural)]
pub enum PreviewIntent {
    Close,
    ScrollUp,
    ScrollDown,
    Copy,
    Nothing,
}

/// The key table of the explorer: `j` and Down go to the next entry,
/// `k` and Up to the previous one, `h`, Left and Backspace to the
/// parent directory, `l`, Right and Enter into the selection, and `:`
/// opens the command line.
pub open spec fn explorer_intent_of(key: Key) -> ExplorerIntent {
    match key {
        Key::Down => ExplorerIntent::Next,
        Key::Up => ExplorerIntent::Previous,
        Key::Left => ExplorerIntent::Parent,
        Key::Backspace => ExplorerIntent::Parent,
        Key::Right => ExplorerIntent::Enter,
        Key::Enter => ExplorerIntent::Enter,
        Key::Char(c) => if c == 'j' {
            ExplorerIntent::Next
        } else if c == 'k' {
            ExplorerIntent::Previous
        } else if c == 'h' {
            ExplorerIntent::Parent
        } else if c == 'l' {
            ExplorerIntent::Enter
        } else if c == ':' {
            ExplorerIntent::CommandMode
        } else {
            ExplorerIntent::Nothing
        },
        _ => ExplorerIntent::Nothing,
    }
}

/// The key table of the command line: characters are typed, Backspace
/// takes the last one off, Enter runs the line and Esc drops it.
pub open spec fn command_intent_of(key: Key) -> CommandIntent {
    match key {
        Key::Enter => CommandIntent::Execute,
        Key::Char(c) => CommandIntent::Append(c),
        Key::Backspace => CommandIntent::Backspace,
        Key::Esc => CommandIntent::Cancel,
        _ => CommandIntent::Nothing,
    }
}

/// The key table of the preview: `j` and Down scroll down, `k` and Up
/// scroll up, `y` copies and `q` closes.
pub open spec fn preview_intent_of(key: Key) -> PreviewIntent {
    match key {
        Key::Up => PreviewIntent::ScrollUp,
        Key::Down => PreviewIntent::ScrollDown,
        Key::Char(c) => if c == 'q' {
            PreviewIntent::Close
        } else if c == 'k' {
            PreviewIntent::ScrollUp
        } else if c == 'j' {
            PreviewIntent::ScrollDown
        } else if c == 'y' {
            PreviewIntent::Copy
        } else {
            PreviewIntent::Nothing
        },
        _ => PreviewIntent::Nothing,
    }
}

/// Looks a key up in the explorer's table.
pub fn explorer_intent(key: Key) -> (intent: ExplorerIntent)
    ensures
        intent == explorer_intent_of(key),
{
    match key {
        Key::Down => ExplorerIntent::Next,
        Key::Up => ExplorerIntent::Previous,
        Key::Left => ExplorerIntent::Parent,
        Key::Backspace => ExplorerIntent::Parent,
        Key::Right => ExplorerIntent::Enter,
        Key::Enter => ExplorerIntent::Enter,
        Key::Char(c) => if c == 'j' {
            ExplorerIntent::Next
        } else if c == 'k' {
            ExplorerIntent::Previous
        } else if c == 'h' {
            ExplorerIntent::Parent
        } else if c == 'l' {
            ExplorerIntent::Enter
        } else if c == ':' {
            ExplorerIntent::CommandMode
        } else {
            ExplorerIntent::Nothing
        },
        _ => ExplorerIntent::Nothing,
    }
}

/// Looks a key up in the command line's table.
pub fn command_intent(key: Key) -> (intent: CommandIntent)
    ensures
        intent == command_intent_of(key),
{
    match key {
        Key::Enter => CommandIntent::Execute,
        Key::Char(c) => CommandIntent::Append(c),
        Key::Backspace => CommandIntent::Backspace,
        Key::Esc => CommandIntent::Cancel,
        _ => CommandIntent::Nothing,
    }
}

/// Looks a key up in the preview's table.
pub fn preview_intent(key: Key) -> (intent: PreviewIntent)
    ensures
        intent == preview_intent_of(key),
{
    match key {
        Key::Up => PreviewIntent::ScrollUp,
        Key::Down => PreviewIntent::ScrollDown,
        Key::Char(c) => if c == 'q' {
            PreviewIntent::Close
        } else if c == 'k' {
            PreviewIntent::ScrollUp
        } else if c == 'j' {
            PreviewIntent::ScrollDown
        } else if c == 'y' {
            PreviewIntent::Copy
        } else {
            PreviewIntent::Nothing
        },
        _ => PreviewIntent::Nothing,
    }
}

/// Work that a key press leaves to the caller.
#[derive(Clone, Debug, PartialEq, Eq)]
pub enum Action {
    /// Nothing to do.
    Nothing,
    /// End the program; this is no failure.
    Quit,
    /// List the parent of the working directory, if it has one, and
    /// hand the listing to `directory_listed`.
    ListParent,
    /// Resolve and list this directory, and hand the listing to
    /// `directory_listed`.
    EnterDirectory(String),
    /// Read this file as text, and hand the outcome to `file_read`
    /// with the kind given here.
    ReadFile(String, DocumentKind),
    /// Look for the file of this name in the working directory and
    /// hand what was found to `cat_target_checked`.
    Cat(String),
    /// Look for the file of this name in the working directory and
    /// hand what was found to `browser_target_checked`.
    OpenInBrowser(String),
    /// Put this text on the clipboard, and hand the outcome to
    /// `copy_finished`. Where the flag is set no clipboard is at hand
    /// yet: try to get one first.
    Copy(String, bool),
}

/// What an action is, its text as characters.
pub enum ActionModel {
    Nothing,
    Quit,
    ListParent,
    EnterDirectory(Seq<char>),
    ReadFile(Seq<char>, DocumentKind),
    Cat(Seq<char>),
    OpenInBrowser(Seq<char>),
    Copy(Seq<char>, bool),
}

impl View for Action {
    type V = ActionModel;

    open spec fn view(&self) -> ActionModel {
        match self {
            Action::Nothing => ActionModel::Nothing,
            Action::Quit => ActionModel::Quit,
            Action::ListParent => ActionModel::ListParent,
            Action::EnterDirectory(p) => ActionModel::EnterDirectory(p@),
            Action::ReadFile(p, k) => ActionModel::ReadFile(p@, *k),
            Action::Cat(f) => ActionModel::Cat(f@),
            Action::OpenInBrowser(f) => ActionModel::OpenInBrowser(f@),
            Action::Copy(t, acquire) => ActionModel::Copy(t@, *acquire),
        }
    }
}

/// How the file at `path` is previewed when the cursor enters it: a
/// file with the extension `md` as Markdown, every other as plain text.
pub open spec fn kind_of_path(path: Seq<char>) -> DocumentKind {
    if extension_of(path) == Some(seq!['m', 'd']) {
        DocumentKind::Markdown
    } else {
        DocumentKind::PlainText
    }
}

/// Whether the file at `path` may be opened in the browser: only a
/// file with the extension `html`.
pub open spec fn opens_in_browser(path: Seq<char>) -> bool {
    extension_of(path) == Some(seq!['h', 't', 'm', 'l'])
}

/// The work that entering the selection asks for: a directory is
/// entered, a file is read for preview, and without a selection there
/// is nothing to do.
pub open spec fn enter_action(e: ExplorerModel) -> ActionModel {
    match e.selected {
        Some(i) => if i < e.entries.len() {
            let entry = e.entries[i as int];
            if entry.is_dir {
                ActionModel::EnterDirectory(entry.path@)
            } else {
                ActionModel::ReadFile(entry.path@, kind_of_path(entry.path@))
            }
        } else {
            ActionModel::Nothing
        },
        None => ActionModel::Nothing,
    }
}

/// The work that a command asks for.
pub open spec fn command_action(command: CommandModel) -> ActionModel {
    match command {
        CommandModel::Quit => ActionModel::Quit,
        CommandModel::Cat(name) => ActionModel::Cat(name),
        CommandModel::OpenBrowser(name) => ActionModel::OpenInBrowser(name),
        CommandModel::Empty => ActionModel::Nothing,
        CommandModel::Unknown(_) => ActionModel::Nothing,
    }
}

/// What the session is at one moment: the explorer, and the document
/// under preview if there is one.
pub struct SessionModel {
    pub explorer: ExplorerModel,
    pub preview: Option<PreviewModel>,
}

impl SessionModel {
    /// The active mode: preview while a document is shown.
    pub open spec fn mode(self) -> Mode {
        if self.preview is Some {
            Mode::Preview
        } else {
            Mode::Explorer
        }
    }

    /// What holds of the session at every moment.
    pub open spec fn wf(self) -> bool {
        &&& self.explorer.wf()
        &&& self.preview is Some ==> self.preview->0.wf()
    }

    /// The session after a key press, and the work the key leaves to
    /// the caller.
    pub open spec fn step(self, key: Key) -> (SessionModel, ActionModel) {
        match self.preview {
            Some(doc) => match preview_intent_of(key) {
                PreviewIntent::Close => (
                    SessionModel { explorer: self.explorer.cancelled(), preview: None },
                    ActionModel::Nothing,
                ),
                PreviewIntent::ScrollUp => (
                    SessionModel { preview: Some(doc.scrolled_up()), ..self },
                    ActionModel::Nothing,
                ),
                PreviewIntent::ScrollDown => (
                    SessionModel { preview: Some(doc.scrolled_down()), ..self },
                    ActionModel::Nothing,
                ),
                PreviewIntent::Copy => (
                    self,
                    ActionModel::Copy(doc.raw_source, !doc.clipboard_ready),
                ),
                PreviewIntent::Nothing => (self, ActionModel::Nothing),
            },
            None => if self.explorer.in_command_mode {
                match command_intent_of(key) {
                    CommandIntent::Execute => (
                        SessionModel { explorer: self.explorer.executed(), ..self },
                        command_action(command_of(self.explorer.command_text)),
                    ),
                    CommandIntent::Append(c) => (
                        SessionModel { explorer: self.explorer.typed(c), ..self },
                        ActionModel::Nothing,
                    ),
                    CommandIntent::Backspace => (
                        SessionModel { explorer: self.explorer.erased(), ..self },
                        ActionModel::Nothing,
                    ),
                    CommandIntent::Cancel => (
                        SessionModel { explorer: self.explorer.cancelled(), ..self },
                        ActionModel::Nothing,
                    ),
                    CommandIntent::Nothing => (self, ActionModel::Nothing),
                }
            } else {
                let quiet = self.explorer.without_message();
                match explorer_intent_of(key) {
                    ExplorerIntent::Next => (
                        SessionModel { explorer: quiet.next(), ..self },
                        ActionModel::Nothing,
                    ),
                    ExplorerIntent::Previous => (
                        SessionModel { explorer: quiet.previous(), ..self },
                        ActionModel::Nothing,
                    ),
                    ExplorerIntent::Parent => (
                        SessionModel { explorer: quiet, ..self },
                        ActionModel::ListParent,
                    ),
                    ExplorerIntent::Enter => (
                        SessionModel { explorer: quiet, ..self },
                        enter_action(quiet),
                    ),
                    ExplorerIntent::CommandMode => (
                        SessionModel { explorer: quiet.in_command_entry(), ..self },
                        ActionModel::Nothing,
                    ),
                    ExplorerIntent::Nothing => (
                        SessionModel { explorer: quiet, ..self },
                        ActionModel::Nothing,
                    ),
                }
            },
        }
    }
}

/// The text before the reason of a failed read.
pub open spec fn file_read_error_text() -> Seq<char> {
    "file read error: "@
}

/// The text before the name of a file that is not there.
pub open spec fn file_not_found_text() -> Seq<char> {
    "file not found: "@
}

/// The message for a file that the browser is not for.
pub open spec fn only_html_text() -> Seq<char> {
    "only HTML files can be opened"@
}

/// The text before the name of a file that the browser opened.
pub open spec fn opened_in_browser_text() -> Seq<char> {
    "opened in browser: "@
}

/// The text before the reason why the browser did not open a file.
pub open spec fn browser_failed_text() -> Seq<char> {
    "could not open in browser: "@
}

/// The raw source of a document whose file holds `text`: for Markdown
/// the HTML it converts to, for plain text the text itself.
pub open spec fn raw_source_of(text: Seq<char>, kind: DocumentKind) -> Seq<char> {
    match kind {
        DocumentKind::Markdown => markdown_html(text),
        DocumentKind::PlainText => text,
    }
}

/// What the outcome of a read is: the text, or the reason of the
/// failure, as characters.
pub open spec fn read_outcome_view(outcome: Result<String, String>) -> Result<Seq<char>, Seq<char>> {
    match outcome {
        Ok(text) => Ok(text@),
        Err(reason) => Err(reason@),
    }
}

/// What the outcome of opening the browser is: success, or the reason
/// of the failure as characters.
pub open spec fn open_outcome_view(outcome: Result<(), String>) -> Result<(), Seq<char>> {
    match outcome {
        Ok(u) => Ok(()),
        Err(reason) => Err(reason@),
    }
}

impl SessionModel {
    /// After the directory `path` was listed: the explorer shows it.
    pub open spec fn directory_listed(self, path: Seq<char>, entries: Seq<Entry>) -> SessionModel {
        SessionModel { explorer: self.explorer.listed(path, entries), ..self }
    }

    /// After a file was read: its text is previewed, or the explorer
    /// shows why it could not be read.
    pub open spec fn file_read(
        self,
        title: Seq<char>,
        kind: DocumentKind,
        outcome: Result<Seq<char>, Seq<char>>,
        clipboard_ready: bool,
    ) -> SessionModel {
        match outcome {
            Ok(text) => SessionModel {
                explorer: self.explorer.cancelled(),
                preview: Some(
                    PreviewModel::fresh(title, raw_source_of(text, kind), kind, clipboard_ready),
                ),
            },
            Err(reason) => SessionModel {
                explorer: self.explorer.with_message(file_read_error_text() + reason, true),
                ..self
            },
        }
    }

    /// After a file was looked for in vain.
    pub open spec fn file_not_found(self, name: Seq<char>) -> SessionModel {
        SessionModel {
            explorer: self.explorer.with_message(file_not_found_text() + name, true),
            ..self
        }
    }

    /// After the file to show was looked for: a message says that it
    /// is not there, and nothing changes when it is.
    pub open spec fn cat_target_checked(self, name: Seq<char>, is_file: bool) -> SessionModel {
        if is_file {
            self
        } else {
            self.file_not_found(name)
        }
    }

    /// After the file to show was read: it is previewed as plain text,
    /// whatever its extension.
    pub open spec fn cat_read(
        self,
        title: Seq<char>,
        outcome: Result<Seq<char>, Seq<char>>,
        clipboard_ready: bool,
    ) -> SessionModel {
        self.file_read(title, DocumentKind::PlainText, outcome, clipboard_ready)
    }

    /// Whether the browser is to open the file that was found at
    /// `path`: it is a regular file with the extension `html`.
    pub open spec fn browser_may_open(path: Seq<char>, is_file: bool) -> bool {
        is_file && opens_in_browser(path)
    }

    /// After the file for the browser was looked for: a message says
    /// why it is not opened, and nothing changes when it is.
    pub open spec fn browser_target_checked(
        self,
        name: Seq<char>,
        path: Seq<char>,
        is_file: bool,
    ) -> SessionModel {
        if !is_file {
            self.file_not_found(name)
        } else if !opens_in_browser(path) {
            SessionModel { explorer: self.explorer.with_message(only_html_text(), true), ..self }
        } else {
            self
        }
    }

    /// After the browser was asked to open a file.
    pub open spec fn browser_opened(
        self,
        name: Seq<char>,
        outcome: Result<(), Seq<char>>,
    ) -> SessionModel {
        match outcome {
            Ok(_) => SessionModel {
                explorer: self.explorer.with_message(opened_in_browser_text() + name, false),
                ..self
            },
            Err(reason) => SessionModel {
                explorer: self.explorer.with_message(browser_failed_text() + reason, true),
                ..self
            },
        }
    }

    /// After a copy to the clipboard ended.
    pub open spec fn copy_finished(self, outcome: CopyOutcomeModel) -> SessionModel {
        match self.preview {
            Some(doc) => SessionModel { preview: Some(doc.after_copy(outcome)), ..self },
            None => self,
        }
    }
}

/// The session's state.
pub struct Session {
    explorer: ExplorerState,
    preview: Option<PreviewState>,
}

impl View for Session {
    type V = SessionModel;

    closed spec fn view(&self) -> SessionModel {
        SessionModel {
            explorer: self.explorer@,
            preview: match self.preview {
                Some(doc) => Some(doc@),
                None => None,
            },
        }
    }
}

impl Session {
    /// A session that starts in the explorer, over the directory
    /// `current_path` whose items are `found` in any order.
    pub fn new(current_path: String, found: Vec<Entry>) -> (session: Session)
        ensures
            session@.wf(),
            session@.mode() == Mode::Explorer,
            session@.explorer.current_path == current_path@,
            listing_sorted(session@.explorer.entries),
            session@.explorer.entries.to_multiset() == found@.to_multiset(),
            session@.explorer.selected == first_cursor(found@.len()),
            session@.explorer.status is None,
            session@.explorer.command_text.len() == 0,
            !session@.explorer.in_command_mode,
    {
        Session { explorer: ExplorerState::new(current_path, found), preview: None }
    }

    /// The active mode.
    pub fn mode(&self) -> (mode: Mode)
        ensures
            mode == self@.mode(),
    {
        if self.preview.is_some() {
            Mode::Preview
        } else {
            Mode::Explorer
        }
    }

    /// The explorer.
    pub fn explorer(&self) -> (explorer: &ExplorerState)
        ensures
            explorer@ == self@.explorer,
    {
        &self.explorer
    }

    /// The document under preview, if there is one.
    pub fn preview(&self) -> (preview: Option<&PreviewState>)
        ensures
            match preview {
                Some(doc) => self@.preview == Some(doc@),
                None => self@.preview is None,
            },
    {
        match &self.preview {
            Some(doc) => Some(doc),
            None => None,
        }
    }

    /// Takes a key press: looks it up in the table of the active mode,
    /// changes the state, and hands out the work that is left to the
    /// caller.
    pub fn handle_key(&mut self, key: Key) -> (action: Action)
        ensures
            final(self)@ == old(self)@.step(key).0,
            action@ == old(self)@.step(key).1,
    {
        if self.preview.is_some() {
            self.handle_preview_key(key)
        } else if self.explorer.in_command_mode() {
            self.handle_command_key(key)
        } else {
            self.handle_explorer_key(key)
        }
    }

    fn handle_preview_key(&mut self, key: Key) -> (action: Action)
        requires
            old(self)@.preview is Some,
        ensures
            final(self)@ == old(self)@.step(key).0,
            action@ == old(self)@.step(key).1,
    {
        match preview_intent(key) {
            PreviewIntent::Close => {
                self.preview = None;
                self.explorer.cancel();
                Action::Nothing
            },
            PreviewIntent::ScrollUp => {
                match &mut self.preview {
                    Some(doc) => {
                        doc.scroll_up();
                    },
                    None => {},
                }
                Action::Nothing
            },
            PreviewIntent::ScrollDown => {
                match &mut self.preview {
                    Some(doc) => {
                        doc.scroll_down();
                    },
                    None => {},
                }
                Action::Nothing
            },
            PreviewIntent::Copy => {
                match &self.preview {
                    Some(doc) => Action::Copy(doc.copy_text().clone(), !doc.has_clipboard()),
                    None => Action::Nothing,
                }
            },
            PreviewIntent::Nothing => Action::Nothing,
        }
    }

    fn handle_command_key(&mut self, key: Key) -> (action: Action)
        requires
            old(self)@.preview is None,
            old(self)@.explorer.in_command_mode,
        ensures
            final(self)@ == old(self)@.step(key).0,
            action@ == old(self)@.step(key).1,
    {
        match command_intent(key) {
            CommandIntent::Execute => {
                match self.explorer.execute() {
                    Command::Quit => Action::Quit,
                    Command::Cat(name) => Action::Cat(name),
                    Command::OpenBrowser(name) => Action::OpenInBrowser(name),
                    Command::Empty => Action::Nothing,
                    Command::Unknown(_) => Action::Nothing,
                }
            },
            CommandIntent::Append(c) => {
                self.explorer.append_char(c);
                Action::Nothing
            },
            CommandIntent::Backspace => {
                self.explorer.backspace();
                Action::Nothing
            },
            CommandIntent::Cancel => {
                self.explorer.cancel();
                Action::Nothing
            },
            CommandIntent::Nothing => Action::Nothing,
        }
    }

    fn handle_explorer_key(&mut self, key: Key) -> (action: Action)
        requires
            old(self)@.preview is None,
            !old(self)@.explorer.in_command_mode,
        ensures
            final(self)@ == old(self)@.step(key).0,
            action@ == old(self)@.step(key).1,
    {
        self.explorer.clear_message();
        match explorer_intent(key) {
            ExplorerIntent::Next => {
                self.explorer.next();
                Action::Nothing
            },
            ExplorerIntent::Previous => {
                self.explorer.previous();
                Action::Nothing
            },
            ExplorerIntent::Parent => Action::ListParent,
            ExplorerIntent::Enter => {
                match self.explorer.selected_entry() {
                    Some(entry) => {
                        if entry.is_dir {
                            Action::EnterDirectory(entry.path.clone())
                        } else {
                            let kind = document_kind(entry.path.as_str());
                            Action::ReadFile(entry.path.clone(), kind)
                        }
                    },
                    None => Action::Nothing,
                }
            },
            ExplorerIntent::CommandMode => {
                self.explorer.enter_command_mode();
                Action::Nothing
            },
            ExplorerIntent::Nothing => Action::Nothing,
        }
    }

    /// Takes the listing of the directory `path`, whose items are
    /// `found` in any order, as the explorer's: sorted, with the cursor
    /// on the first entry.
    pub fn directory_listed(&mut self, path: String, found: Vec<Entry>)
        ensures
            listing_sorted(final(self)@.explorer.entries),
            final(self)@.explorer.entries.to_multiset() == found@.to_multiset(),
            final(self)@ == old(self)@.directory_listed(path@, final(self)@.explorer.entries),
    {
        self.explorer.load_entries(path, found);
    }

    /// Takes the outcome of reading a file. The text of a file that was
    /// read is rendered by `kind` and previewed under `title`; a
    /// failure leaves an error message in the explorer and the mode as
    /// it is.
    pub fn file_read(
        &mut self,
        title: String,
        kind: DocumentKind,
        outcome: Result<String, String>,
        clipboard_ready: bool,
    )
        ensures
            final(self)@ == old(self)@.file_read(
                title@,
                kind,
                read_outcome_view(outcome),
                clipboard_ready,
            ),
    {
        match outcome {
            Ok(text) => {
                self.explorer.cancel();
                self.preview = Some(PreviewState::render(title, text, kind, clipboard_ready));
            },
            Err(reason) => {
                let mut message = String::from_str("file read error: ");
                message.append(reason.as_str());
                self.explorer.set_message(message, true);
            },
        }
    }

    /// Decides whether the file named `name` is to be read for
    /// showing: only a regular file is; one that is not there leaves an
    /// error message.
    pub fn cat_target_checked(&mut self, name: &str, is_file: bool) -> (read: bool)
        ensures
            read == is_file,
            final(self)@ == old(self)@.cat_target_checked(name@, is_file),
    {
        if !is_file {
            self.file_not_found(name);
        }
        is_file
    }

    /// Takes the outcome of reading the file to show. Its text is
    /// previewed under `title` as plain text, whatever its extension; a
    /// failure leaves an error message in the explorer and the mode as
    /// it is.
    pub fn cat_read(&mut self, title: String, outcome: Result<String, String>, clipboard_ready: bool)
        ensures
            final(self)@ == old(self)@.cat_read(title@, read_outcome_view(outcome), clipboard_ready),
    {
        self.file_read(title, DocumentKind::PlainText, outcome, clipboard_ready);
    }

    /// Takes note that no regular file of the name `name` was found.
    fn file_not_found(&mut self, name: &str)
        ensures
            final(self)@ == old(self)@.file_not_found(name@),
    {
        let mut message = String::from_str("file not found: ");
        message.append(name);
        self.explorer.set_message(message, true);
    }

    /// Decides whether the browser is to open the file named `name`,
    /// which was looked for at `path`. A file that is not there, or is
    /// no HTML file, leaves an error message and is not opened.
    pub fn browser_target_checked(&mut self, name: &str, path: &str, is_file: bool) -> (open: bool)
        ensures
            open == SessionModel::browser_may_open(path@, is_file),
            final(self)@ == old(self)@.browser_target_checked(name@, path@, is_file),
    {
        if !is_file {
            self.file_not_found(name);
            return false;
        }
        proof {
            reveal_strlit("html");
            assert("html"@ =~= seq!['h', 't', 'm', 'l']);
        }
        if !has_extension(path, "html") {
            self.explorer.set_message(String::from_str("only HTML files can be opened"), true);
            return false;
        }
        true
    }

    /// Takes the outcome of opening the file named `name` in the
    /// browser: a notice on success, an error message on failure.
    pub fn browser_opened(&mut self, name: &str, outcome: Result<(), String>)
        ensures
            final(self)@ == old(self)@.browser_opened(name@, open_outcome_view(outcome)),
    {
        match outcome {
            Ok(_) => {
                let mut message = String::from_str("opened in browser: ");
                message.append(name);
                self.explorer.set_message(message, false);
            },
            Err(reason) => {
                let mut message = String::from_str("could not open in browser: ");
                message.append(reason.as_str());
                self.explorer.set_message(message, true);
            },
        }
    }

    /// Takes the outcome of a copy to the clipboard.
    pub fn copy_finished(&mut self, outcome: CopyOutcome)
        ensures
            final(self)@ == old(self)@.copy_finished(outcome@),
    {
        match &mut self.preview {
            Some(doc) => {
                doc.copy_to_clipboard(outcome);
            },
            None => {},
        }
    }
}

/// How the file at `path` is previewed when the cursor enters it.
pub fn document_kind(path: &str) -> (kind: DocumentKind)
    ensures
        kind == kind_of_path(path@),
{
    proof {
        reveal_strlit("md");
        assert("md"@ =~= seq!['m', 'd']);
    }
    if has_extension(path, "md") {
        DocumentKind::Markdown
    } else {
        DocumentKind::PlainText
    }
}

/// Every key press leaves the session well formed.
pub proof fn lemma_step_keeps_wf(m: SessionModel, key: Key)
    requires
        m.wf(),
    ensures
        m.step(key).0.wf(),
{
}

/// Exactly one mode is active: preview while a document is shown, the
/// explorer otherwise.
pub proof fn lemma_one_mode(m: SessionModel)
    ensures
        m.mode() == Mode::Preview <==> m.preview is Some,
        m.mode() == Mode::Explorer <==> m.preview is None,
        m.mode() == Mode::Preview || m.mode() == Mode::Explorer,
{
}

/// Closing the preview drops the document and gives the keys back to
/// the explorer, with its command line closed and empty.
pub proof fn lemma_close_returns_to_explorer(m: SessionModel, key: Key)
    requires
        m.preview is Some,
        preview_intent_of(key) == PreviewIntent::Close,
    ensures
        m.step(key).0.mode() == Mode::Explorer,
        !m.step(key).0.explorer.in_command_mode,
        m.step(key).0.explorer.command_text.len() == 0,
        m.step(key).1 == ActionModel::Nothing,
{
}

/// What a copy hands to the clipboard is the document's raw source,
/// whatever the kind of the document and whatever is shown. A
/// clipboard is asked for only while none is at hand, and asking for
/// the copy changes nothing.
pub proof fn lemma_copy_hands_out_raw_source(m: SessionModel, key: Key)
    requires
        m.preview is Some,
        preview_intent_of(key) == PreviewIntent::Copy,
    ensures
        m.step(key).1 == ActionModel::Copy(
            m.preview->0.raw_source,
            !m.preview->0.clipboard_ready,
        ),
        m.step(key).0 == m,
{
}

/// While a document is shown no key reaches the explorer: only closing
/// the preview touches it, and no work on files is asked for.
pub proof fn lemma_preview_takes_the_keys(m: SessionModel, key: Key)
    requires
        m.preview is Some,
        preview_intent_of(key) != PreviewIntent::Close,
    ensures
        m.step(key).0.explorer == m.explorer,
        m.step(key).0.preview is Some,
        m.step(key).1 is Nothing || m.step(key).1 is Copy,
{
}

/// No key opens a preview by itself: in the explorer a key leaves the
/// mode as it is, and only a file that was read changes it.
pub proof fn lemma_keys_stay_in_explorer(m: SessionModel, key: Key)
    requires
        m.preview is None,
    ensures
        m.step(key).0.preview is None,
        !m.explorer.in_command_mode ==> m.step(key).0.explorer.status is None,
{
}

/// What the caller hands back leaves the session well formed: a sorted
/// listing, the outcome of a read, of a look for a file, of the
/// browser and of a copy.
pub proof fn lemma_events_keep_wf(
    m: SessionModel,
    path: Seq<char>,
    entries: Seq<Entry>,
    name: Seq<char>,
    kind: DocumentKind,
    read: Result<Seq<char>, Seq<char>>,
    opened: Result<(), Seq<char>>,
    copied: CopyOutcomeModel,
    is_file: bool,
    clipboard_ready: bool,
)
    requires
        m.wf(),
        listing_sorted(entries),
        entries.len() <= usize::MAX,
    ensures
        m.directory_listed(path, entries).wf(),
        m.file_read(path, kind, read, clipboard_ready).wf(),
        m.cat_target_checked(name, is_file).wf(),
        m.cat_read(path, read, clipboard_ready).wf(),
        m.browser_target_checked(name, path, is_file).wf(),
        m.browser_opened(name, opened).wf(),
        m.copy_finished(copied).wf(),
        m.browser_target_checked(name, path, is_file).mode() == m.mode(),
        m.browser_opened(name, opened).mode() == m.mode(),
        m.cat_target_checked(name, is_file).mode() == m.mode(),
        read is Err ==> m.file_read(path, kind, read, clipboard_ready).mode() == m.mode(),
        read is Ok ==> m.file_read(path, kind, read, clipboard_ready).mode() == Mode::Preview,
{
}

} // verus!
