//! The explorer: the working directory, its listing with a cursor, a
//! status message, and the command line.

use crate::command::{command_of, parse_command, Command, CommandModel};
use crate::entries::{listing_sorted, sort_entries, Entry};
use vstd::prelude::*;
use vstd::string::StringExecFns;

verus! {

/// How a status message is to be read.
#[derive(Clone, Copy, Debug, PartialEq, Eq, Structural)]
pub enum Severity {
    /// Something failed.
    Error,
    /// Something was done.
    Info,
}

/// A message for the status line.
#[derive(Clone, Debug, PartialEq, Eq)]
pub struct StatusMessage {
    /// The message.
    pub text: String,
    /// Its severity.
    pub severity: Severity,
}

/// What a status message is: its characters and its severity.
pub struct StatusModel {
    pub text: Seq<char>,
    pub severity: Severity,
}

impl View for StatusMessage {
    type V = StatusModel;

    open spec fn view(&self) -> StatusModel {
        StatusModel { text: self.text@, severity: self.severity }
    }
}

/// The severity of a message that is, or is not, an error.
pub open spec fn severity_of(is_error: bool) -> Severity {
    if is_error {
        Severity::Error
    } else {
        Severity::Info
    }
}

/// The cursor for a fresh listing of `n` entries: on the first entry,
/// or nowhere when there is none.
pub open spec fn first_cursor(n: nat) -> Option<usize> {
    if n > 0 {
        Some(0usize)
    } else {
        None
    }
}

/// The cursor one step down a listing of `n` entries; from the last
/// entry it goes to the first.
pub open spec fn cursor_after(cursor: Option<usize>, n: nat) -> Option<usize> {
    match cursor {
        Some(i) => if n == 0 {
            cursor
        } else if i + 1 >= n {
            Some(0usize)
        } else {
            Some((i + 1) as usize)
        },
        None => None,
    }
}

/// The cursor one step up a listing of `n` entries; from the first
/// entry it goes to the last.
pub open spec fn cursor_before(cursor: Option<usize>, n: nat) -> Option<usize> {
    match cursor {
        Some(i) => if n == 0 {
            cursor
        } else if i == 0 {
            Some((n - 1) as usize)
        } else {
            Some((i - 1) as usize)
        },
        None => None,
    }
}

/// A cursor that fits a listing of `n` entries: on one of them, and
/// nowhere only when there is none. The listing is one that a machine
/// can hold.
pub open spec fn cursor_fits(cursor: Option<usize>, n: nat) -> bool {
    &&& n <= usize::MAX
    &&& match cursor {
        Some(i) => i < n,
        None => n == 0,
    }
}

/// A sorted listing with a cursor on one of its entries.
pub struct Listing {
    entries: Vec<Entry>,
    selected: Option<usize>,
}

impl Listing {
    #[verifier::type_invariant]
    spec fn inv(self) -> bool {
        &&& listing_sorted(self.entries@)
        &&& cursor_fits(self.selected, self.entries@.len())
    }

    /// The entries, in display order.
    pub closed spec fn items(self) -> Seq<Entry> {
        self.entries@
    }

    /// The cursor.
    pub closed spec fn cursor(self) -> Option<usize> {
        self.selected
    }

    /// Sorts `found` into a listing, with the cursor on its first entry.
    pub fn new(found: Vec<Entry>) -> (listing: Listing)
        ensures
            listing_sorted(listing.items()),
            listing.items().to_multiset() == found@.to_multiset(),
            listing.cursor() == first_cursor(found@.len()),
            cursor_fits(listing.cursor(), listing.items().len()),
    {
        let entries = sort_entries(found);
        proof {
            vstd::seq_lib::to_multiset_len(entries@);
            vstd::seq_lib::to_multiset_len(found@);
        }
        let selected = if entries.len() > 0 {
            Some(0)
        } else {
            None
        };
        Listing { entries, selected }
    }

    /// The entries, in display order.
    pub fn entries(&self) -> (entries: &Vec<Entry>)
        ensures
            entries@ == self.items(),
            listing_sorted(entries@),
    {
        proof {
            use_type_invariant(self);
        }
        &self.entries
    }

    /// The cursor.
    pub fn selected(&self) -> (selected: Option<usize>)
        ensures
            selected == self.cursor(),
            cursor_fits(selected, self.items().len()),
    {
        proof {
            use_type_invariant(self);
        }
        self.selected
    }

    /// The entry under the cursor.
    pub fn selected_entry(&self) -> (entry: Option<&Entry>)
        ensures
            match self.cursor() {
                Some(i) => i < self.items().len() && entry == Some(&self.items()[i as int]),
                None => entry is None,
            },
    {
        proof {
            use_type_invariant(self);
        }
        match self.selected {
            Some(i) => Some(&self.entries[i]),
            None => None,
        }
    }

    /// Moves the cursor one entry down, from the last entry to the
    /// first. Nothing happens in an empty listing.
    pub fn next(&mut self)
        ensures
            final(self).items() == old(self).items(),
            final(self).cursor() == cursor_after(old(self).cursor(), old(self).items().len()),
            cursor_fits(final(self).cursor(), final(self).items().len()),
    {
        proof {
            use_type_invariant(&*self);
        }
        if self.entries.len() == 0 {
            return ;
        }
        let i: usize = match self.selected {
            Some(i) => if i >= self.entries.len() - 1 {
                0
            } else {
                i + 1
            },
            None => 0,
        };
        self.selected = Some(i);
    }

    /// Moves the cursor one entry up, from the first entry to the last.
    /// Nothing happens in an empty listing.
    pub fn previous(&mut self)
        ensures
            final(self).items() == old(self).items(),
            final(self).cursor() == cursor_before(old(self).cursor(), old(self).items().len()),
            cursor_fits(final(self).cursor(), final(self).items().len()),
    {
        proof {
            use_type_invariant(&*self);
        }
        if self.entries.len() == 0 {
            return ;
        }
        let i: usize = match self.selected {
            Some(i) => if i == 0 {
                self.entries.len() - 1
            } else {
                i - 1
            },
            None => 0,
        };
        self.selected = Some(i);
    }
}

/// The command line: whether it is open, and what was typed. A closed
/// command line holds no text.
pub struct CommandLine {
    active: bool,
    text: String,
}

impl CommandLine {
    #[verifier::type_invariant]
    spec fn inv(self) -> bool {
        !self.active ==> self.text@.len() == 0
    }

    /// Whether the command line is open.
    pub closed spec fn is_open(self) -> bool {
        self.active
    }

    /// What was typed.
    pub closed spec fn typed(self) -> Seq<char> {
        self.text@
    }

    /// A closed command line.
    pub fn new() -> (line: CommandLine)
        ensures
            !line.is_open(),
            line.typed().len() == 0,
    {
        CommandLine { active: false, text: String::new() }
    }

    /// Whether the command line is open.
    pub fn active(&self) -> (active: bool)
        ensures
            active == self.is_open(),
            !active ==> self.typed().len() == 0,
    {
        proof {
            use_type_invariant(self);
        }
        self.active
    }

    /// What was typed.
    pub fn text(&self) -> (text: &String)
        ensures
            text@ == self.typed(),
    {
        &self.text
    }

    /// Opens the command line. What it holds stays.
    pub fn open(&mut self)
        ensures
            final(self).is_open(),
            final(self).typed() == old(self).typed(),
    {
        self.active = true;
    }

    /// Adds a character to an open command line. A closed one stays as
    /// it is.
    pub fn push(&mut self, c: char)
        ensures
            final(self).is_open() == old(self).is_open(),
            final(self).typed() == if old(self).is_open() {
                old(self).typed().push(c)
            } else {
                old(self).typed()
            },
    {
        if self.active {
            let mut text = String::new();
            std::mem::swap(&mut text, &mut self.text);
            text.push(c);
            self.text = text;
        }
    }

    /// Takes the last character off, if there is one.
    pub fn pop(&mut self)
        ensures
            final(self).is_open() == old(self).is_open(),
            final(self).typed() == if old(self).typed().len() > 0 {
                old(self).typed().drop_last()
            } else {
                old(self).typed()
            },
    {
        proof {
            use_type_invariant(&*self);
        }
        if self.active {
            let mut text = String::new();
            std::mem::swap(&mut text, &mut self.text);
            let _ = text.pop();
            self.text = text;
        }
    }

    /// Closes the command line and hands out what was typed.
    pub fn close(&mut self) -> (text: String)
        ensures
            !final(self).is_open(),
            final(self).typed().len() == 0,
            text@ == old(self).typed(),
    {
        let mut text = String::new();
        std::mem::swap(&mut text, &mut self.text);
        self.active = false;
        text
    }
}

/// What the explorer is at one moment.
pub struct ExplorerModel {
    /// The working directory.
    pub current_path: Seq<char>,
    /// Its entries, in display order.
    pub entries: Seq<Entry>,
    /// The cursor.
    pub selected: Option<usize>,
    /// The status message, if one is shown.
    pub status: Option<StatusModel>,
    /// What was typed on the command line.
    pub command_text: Seq<char>,
    /// Whether the command line is open.
    pub in_command_mode: bool,
}

/// The colour family of the status line.
#[derive(Clone, Copy, Debug, PartialEq, Eq, Structural)]
pub enum Tone {
    /// A failure is shown.
    Error,
    /// A notice is shown.
    Notice,
    /// Nothing in particular is shown.
    Normal,
}

/// What the status line shows.
#[derive(Clone, Debug, PartialEq, Eq)]
pub struct StatusLine {
    /// The text.
    pub text: String,
    /// Its colour family.
    pub tone: Tone,
}

/// The help shown on an idle status line.
pub open spec fn explorer_help_text() -> Seq<char> {
    "j/k: Move | Enter: View HTML Source | :<cmd>: Command (:cat, :ob, :q)"@
}

/// The text before the line of an unknown command.
pub open spec fn unknown_command_text() -> Seq<char> {
    "unknown command: "@
}

impl ExplorerModel {
    /// What holds of the explorer at every moment: the listing is
    /// sorted, the cursor is on one of its entries, or nowhere when it
    /// has none, and a closed command line holds no text.
    pub open spec fn wf(self) -> bool {
        &&& listing_sorted(self.entries)
        &&& cursor_fits(self.selected, self.entries.len())
        &&& !self.in_command_mode ==> self.command_text.len() == 0
    }

    /// The explorer over a fresh listing of `path`.
    pub open spec fn listed(self, path: Seq<char>, entries: Seq<Entry>) -> ExplorerModel {
        ExplorerModel {
            current_path: path,
            entries,
            selected: first_cursor(entries.len()),
            ..self
        }
    }

    /// The text of the status line: the command line behind a `:`
    /// while it is open, else the status message, else the help.
    pub open spec fn status_text(self) -> Seq<char> {
        if self.in_command_mode {
            seq![':'] + self.command_text
        } else {
            match self.status {
                Some(m) => m.text,
                None => explorer_help_text(),
            }
        }
    }

    /// The colour family of the status line: that of the status
    /// message, or normal without one.
    pub open spec fn status_tone(self) -> Tone {
        match self.status {
            Some(m) => match m.severity {
                Severity::Error => Tone::Error,
                Severity::Info => Tone::Notice,
            },
            None => Tone::Normal,
        }
    }

    /// With the cursor one entry down.
    pub open spec fn next(self) -> ExplorerModel {
        ExplorerModel { selected: cursor_after(self.selected, self.entries.len()), ..self }
    }

    /// With the cursor one entry up.
    pub open spec fn previous(self) -> ExplorerModel {
        ExplorerModel { selected: cursor_before(self.selected, self.entries.len()), ..self }
    }

    /// With the status message `text`.
    pub open spec fn with_message(self, text: Seq<char>, is_error: bool) -> ExplorerModel {
        ExplorerModel {
            status: Some(StatusModel { text, severity: severity_of(is_error) }),
            ..self
        }
    }

    /// Without a status message.
    pub open spec fn without_message(self) -> ExplorerModel {
        ExplorerModel { status: None, ..self }
    }

    /// With the command line open.
    pub open spec fn in_command_entry(self) -> ExplorerModel {
        ExplorerModel { in_command_mode: true, ..self }
    }

    /// With `c` typed on the command line, if it is open.
    pub open spec fn typed(self, c: char) -> ExplorerModel {
        if self.in_command_mode {
            ExplorerModel { command_text: self.command_text.push(c), ..self }
        } else {
            self
        }
    }

    /// With the last typed character taken off, if there is one.
    pub open spec fn erased(self) -> ExplorerModel {
        if self.command_text.len() > 0 {
            ExplorerModel { command_text: self.command_text.drop_last(), ..self }
        } else {
            self
        }
    }

    /// With the command line closed and empty.
    pub open spec fn cancelled(self) -> ExplorerModel {
        ExplorerModel { command_text: Seq::empty(), in_command_mode: false, ..self }
    }

    /// After the typed line was run: the command line closed and empty,
    /// the old status message gone, and for an unknown command a new
    /// one that names the line.
    pub open spec fn executed(self) -> ExplorerModel {
        let done = self.cancelled().without_message();
        match command_of(self.command_text) {
            CommandModel::Unknown(line) => done.with_message(unknown_command_text() + line, true),
            _ => done,
        }
    }
}

/// The explorer's state.
pub struct ExplorerState {
    current_path: String,
    listing: Listing,
    status: Option<StatusMessage>,
    command: CommandLine,
}

impl View for ExplorerState {
    type V = ExplorerModel;

    closed spec fn view(&self) -> ExplorerModel {
        ExplorerModel {
            current_path: self.current_path@,
            entries: self.listing.items(),
            selected: self.listing.cursor(),
            status: match self.status {
                Some(m) => Some(m@),
                None => None,
            },
            command_text: self.command.typed(),
            in_command_mode: self.command.is_open(),
        }
    }
}

impl ExplorerState {
    /// The explorer over the directory `current_path`, whose items are
    /// `found` in any order: sorted, with the cursor on the first
    /// entry, no message and the command line closed.
    pub fn new(current_path: String, found: Vec<Entry>) -> (state: ExplorerState)
        ensures
            state@.wf(),
            state@.current_path == current_path@,
            listing_sorted(state@.entries),
            state@.entries.to_multiset() == found@.to_multiset(),
            state@.selected == first_cursor(found@.len()),
            state@.status is None,
            state@.command_text.len() == 0,
            !state@.in_command_mode,
    {
        let listing = Listing::new(found);
        proof {
            vstd::seq_lib::to_multiset_len(listing.items());
            vstd::seq_lib::to_multiset_len(found@);
        }
        ExplorerState { current_path, listing, status: None, command: CommandLine::new() }
    }

    /// Takes the directory `path`, whose items are `found` in any
    /// order, as the working directory: the listing is sorted anew and
    /// the cursor goes to the first entry. The rest stays.
    pub fn load_entries(&mut self, path: String, found: Vec<Entry>)
        ensures
            final(self)@.wf(),
            listing_sorted(final(self)@.entries),
            final(self)@.entries.to_multiset() == found@.to_multiset(),
            final(self)@ == old(self)@.listed(path@, final(self)@.entries),
    {
        proof {
            use_type_invariant(&self.listing);
            use_type_invariant(&self.command);
        }
        let listing = Listing::new(found);
        proof {
            vstd::seq_lib::to_multiset_len(listing.items());
            vstd::seq_lib::to_multiset_len(found@);
        }
        self.current_path = path;
        self.listing = listing;
    }

    /// Moves the cursor one entry down, from the last entry to the
    /// first. Nothing happens in an empty listing.
    pub fn next(&mut self)
        ensures
            final(self)@ == old(self)@.next(),
            final(self)@.wf(),
    {
        proof {
            use_type_invariant(&self.listing);
            use_type_invariant(&self.command);
        }
        self.listing.next();
    }

    /// Moves the cursor one entry up, from the first entry to the last.
    /// Nothing happens in an empty listing.
    pub fn previous(&mut self)
        ensures
            final(self)@ == old(self)@.previous(),
            final(self)@.wf(),
    {
        proof {
            use_type_invariant(&self.listing);
            use_type_invariant(&self.command);
        }
        self.listing.previous();
    }

    /// Shows `message` on the status line, as an error or as a notice.
    pub fn set_message(&mut self, message: String, is_error: bool)
        ensures
            final(self)@ == old(self)@.with_message(message@, is_error),
            final(self)@.wf(),
    {
        proof {
            use_type_invariant(&self.listing);
            use_type_invariant(&self.command);
        }
        let severity = if is_error {
            Severity::Error
        } else {
            Severity::Info
        };
        self.status = Some(StatusMessage { text: message, severity });
    }

    /// Takes the status message away.
    pub fn clear_message(&mut self)
        ensures
            final(self)@ == old(self)@.without_message(),
            final(self)@.wf(),
    {
        proof {
            use_type_invariant(&self.listing);
            use_type_invariant(&self.command);
        }
        self.status = None;
    }

    /// Opens the command line.
    pub fn enter_command_mode(&mut self)
        ensures
            final(self)@ == old(self)@.in_command_entry(),
            final(self)@.wf(),
    {
        proof {
            use_type_invariant(&self.listing);
            use_type_invariant(&self.command);
        }
        self.command.open();
    }

    /// Adds a typed character to the open command line.
    pub fn append_char(&mut self, c: char)
        ensures
            final(self)@ == old(self)@.typed(c),
            final(self)@.wf(),
    {
        proof {
            use_type_invariant(&self.listing);
            use_type_invariant(&self.command);
        }
        self.command.push(c);
    }

    /// Takes the last typed character off the command line.
    pub fn backspace(&mut self)
        ensures
            final(self)@ == old(self)@.erased(),
            final(self)@.wf(),
    {
        proof {
            use_type_invariant(&self.listing);
            use_type_invariant(&self.command);
        }
        self.command.pop();
    }

    /// Closes the command line and drops what was typed.
    pub fn cancel(&mut self)
        ensures
            final(self)@ == old(self)@.cancelled(),
            final(self)@.wf(),
    {
        proof {
            use_type_invariant(&self.listing);
            use_type_invariant(&self.command);
        }
        let _ = self.command.close();
        assert(final(self)@.command_text =~= Seq::<char>::empty());
    }

    /// Runs the typed line: closes the command line, takes the status
    /// message away, and reads the line as a command. An unknown
    /// command leaves an error message that names the line. The
    /// command is handed out for the caller to carry out.
    pub fn execute(&mut self) -> (command: Command)
        ensures
            command@ == command_of(old(self)@.command_text),
            final(self)@ == old(self)@.executed(),
            final(self)@.wf(),
    {
        proof {
            use_type_invariant(&self.listing);
            use_type_invariant(&self.command);
        }
        let line = self.command.close();
        assert(self@.command_text =~= Seq::<char>::empty());
        self.status = None;
        let command = parse_command(line.as_str());
        match &command {
            Command::Unknown(text) => {
                let mut message = String::from_str("unknown command: ");
                message.append(text.as_str());
                self.status = Some(StatusMessage { text: message, severity: Severity::Error });
            },
            _ => {},
        }
        command
    }

    /// What the status line shows.
    pub fn status_line(&self) -> (line: StatusLine)
        ensures
            line.text@ == self@.status_text(),
            line.tone == self@.status_tone(),
    {
        let tone = match &self.status {
            Some(m) => match m.severity {
                Severity::Error => Tone::Error,
                Severity::Info => Tone::Notice,
            },
            None => Tone::Normal,
        };
        let text = if self.command.active() {
            let mut text = String::new();
            text.push(':');
            text.append(self.command.text().as_str());
            assert(text@ =~= seq![':'] + self.command.typed());
            text
        } else {
            match &self.status {
                Some(m) => m.text.clone(),
                None => String::from_str(
                    "j/k: Move | Enter: View HTML Source | :<cmd>: Command (:cat, :ob, :q)",
                ),
            }
        };
        StatusLine { text, tone }
    }

    /// The working directory.
    pub fn current_path(&self) -> (path: &String)
        ensures
            path@ == self@.current_path,
    {
        &self.current_path
    }

    /// The entries, in display order.
    pub fn entries(&self) -> (entries: &Vec<Entry>)
        ensures
            entries@ == self@.entries,
            listing_sorted(entries@),
    {
        self.listing.entries()
    }

    /// The cursor: the place of the selected entry.
    pub fn selected(&self) -> (selected: Option<usize>)
        ensures
            selected == self@.selected,
            self@.wf(),
    {
        proof {
            use_type_invariant(&self.listing);
            use_type_invariant(&self.command);
        }
        self.listing.selected()
    }

    /// The selected entry.
    pub fn selected_entry(&self) -> (entry: Option<&Entry>)
        ensures
            match self@.selected {
                Some(i) => i < self@.entries.len() && entry == Some(&self@.entries[i as int]),
                None => entry is None,
            },
    {
        self.listing.selected_entry()
    }

    /// The status message, if one is shown.
    pub fn status_message(&self) -> (status: Option<&StatusMessage>)
        ensures
            match status {
                Some(m) => self@.status == Some(m@),
                None => self@.status is None,
            },
    {
        match &self.status {
            Some(m) => Some(m),
            None => None,
        }
    }

    /// Whether the status line shows an error.
    pub fn is_error(&self) -> (is_error: bool)
        ensures
            is_error == match self@.status {
                Some(m) => m.severity == Severity::Error,
                None => false,
            },
    {
        match &self.status {
            Some(m) => m.severity == Severity::Error,
            None => false,
        }
    }

    /// What was typed on the command line.
    pub fn command_input(&self) -> (text: &String)
        ensures
            text@ == self@.command_text,
    {
        self.command.text()
    }

    /// Whether the command line is open.
    pub fn in_command_mode(&self) -> (open: bool)
        ensures
            open == self@.in_command_mode,
            !open ==> self@.command_text.len() == 0,
    {
        self.command.active()
    }
}

/// A step of the cursor over a listing that is not empty leaves it on
/// an entry, and the steps wrap around: down from the last entry is the
/// first, up from the first is the last, and a step down and a step up
/// undo each other.
pub proof fn lemma_cursor_wraps(m: ExplorerModel)
    requires
        m.wf(),
        m.entries.len() > 0,
    ensures
        m.selected is Some,
        m.next().wf(),
        m.previous().wf(),
        m.next().selected == Some(((m.selected->0 + 1) % (m.entries.len() as int)) as usize),
        m.previous().selected == Some(
            ((m.selected->0 + m.entries.len() - 1) % (m.entries.len() as int)) as usize,
        ),
        m.selected->0 == m.entries.len() - 1 ==> m.next().selected == Some(0usize),
        m.selected->0 == 0 ==> m.previous().selected == Some((m.entries.len() - 1) as usize),
        m.next().previous() == m,
        m.previous().next() == m,
{
    let n = m.entries.len() as int;
    let i = m.selected->0 as int;
    if i + 1 < n {
        vstd::arithmetic::div_mod::lemma_small_mod((i + 1) as nat, n as nat);
    } else {
        vstd::arithmetic::div_mod::lemma_mod_self_0(n);
    }
    if i == 0 {
        vstd::arithmetic::div_mod::lemma_small_mod((n - 1) as nat, n as nat);
    } else {
        vstd::arithmetic::div_mod::lemma_mod_add_multiples_vanish(i - 1, n);
        vstd::arithmetic::div_mod::lemma_small_mod((i - 1) as nat, n as nat);
    }
}

/// In an empty listing the cursor is nowhere and stays there.
pub proof fn lemma_cursor_rests(m: ExplorerModel)
    requires
        m.wf(),
        m.entries.len() == 0,
    ensures
        m.selected is None,
        m.next() == m,
        m.previous() == m,
{
}

/// Every step of the explorer keeps it well formed.
pub proof fn lemma_steps_keep_wf(m: ExplorerModel, c: char, text: Seq<char>, is_error: bool)
    requires
        m.wf(),
    ensures
        m.next().wf(),
        m.previous().wf(),
        m.with_message(text, is_error).wf(),
        m.without_message().wf(),
        m.in_command_entry().wf(),
        m.typed(c).wf(),
        m.erased().wf(),
        m.cancelled().wf(),
        m.executed().wf(),
        m.executed().command_text.len() == 0,
        !m.executed().in_command_mode,
{
}

/// A fresh listing puts the cursor on the first entry, or nowhere when
/// the directory is empty.
pub proof fn lemma_listed_resets_cursor(m: ExplorerModel, path: Seq<char>, entries: Seq<Entry>)
    requires
        m.wf(),
        listing_sorted(entries),
        entries.len() <= usize::MAX,
    ensures
        m.listed(path, entries).wf(),
        m.listed(path, entries).selected == if entries.len() > 0 {
            Some(0usize)
        } else {
            None
        },
{
}

} // verus!
