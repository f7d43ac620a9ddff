//! The preview: one document, rendered for display, with a scroll
//! position and a short-lived status message.

use crate::highlight::{
    highlight_html, highlight_spec, lines_view, plain_lines, plain_spec, Line, SpanModel,
};
use crate::chars::{decimal, decimal_of};
use crate::markdown::{markdown_html, markdown_to_html};
use vstd::prelude::*;
use vstd::string::{StrSliceExecFns, StringExecFns};

verus! {

/// How a document's text is rendered.
#[derive(Clone, Copy, Debug, PartialEq, Eq, Structural)]
pub enum DocumentKind {
    /// Markup source, shown with its tags highlighted.
    Markdown,
    /// Text shown as it is.
    PlainText,
}

/// How an attempt to copy to the clipboard ended.
#[derive(Clone, Debug, PartialEq, Eq)]
pub enum CopyOutcome {
    /// No clipboard could be had.
    Unavailable,
    /// The clipboard refused the text; holds its reason.
    Failed(String),
    /// The text is on the clipboard.
    Copied,
}

/// What the outcome of a copy is, its reason as characters.
pub enum CopyOutcomeModel {
    Unavailable,
    Failed(Seq<char>),
    Copied,
}

impl View for CopyOutcome {
    type V = CopyOutcomeModel;

    open spec fn view(&self) -> CopyOutcomeModel {
        match self {
            CopyOutcome::Unavailable => CopyOutcomeModel::Unavailable,
            CopyOutcome::Failed(reason) => CopyOutcomeModel::Failed(reason@),
            CopyOutcome::Copied => CopyOutcomeModel::Copied,
        }
    }
}

/// The styled lines of `raw` for a document of the kind `kind`.
pub open spec fn rendered_spec(raw: Seq<char>, kind: DocumentKind) -> Seq<Seq<SpanModel>> {
    match kind {
        DocumentKind::Markdown => highlight_spec(raw),
        DocumentKind::PlainText => plain_spec(raw),
    }
}

/// The message shown when no clipboard can be had.
pub open spec fn clipboard_missing_text() -> Seq<char> {
    "clipboard not available"@
}

/// The text before the reason of a failed copy.
pub open spec fn copy_failed_text() -> Seq<char> {
    "copy failed: "@
}

/// The help shown in the footer while there is no message.
pub open spec fn preview_help_text() -> Seq<char> {
    "Press 'q' to close | 'y' to copy"@
}

/// What stands between the parts of the footer.
pub open spec fn footer_bar() -> Seq<char> {
    " | "@
}

/// What stands behind the count of characters in the footer.
pub open spec fn footer_unit() -> Seq<char> {
    " chars | "@
}

/// What a previewed document is at one moment.
pub struct PreviewModel {
    /// The title: the path the document came from.
    pub title: Seq<char>,
    /// The text that is rendered, and that a copy hands out.
    pub raw_source: Seq<char>,
    /// How the text is rendered.
    pub kind: DocumentKind,
    /// The rendered lines.
    pub content: Seq<Seq<SpanModel>>,
    /// The place of the topmost line shown.
    pub scroll: nat,
    /// The number of characters of the raw source.
    pub char_count: nat,
    /// The status message, if one is shown.
    pub status: Option<Seq<char>>,
    /// Whether a clipboard is at hand.
    pub clipboard_ready: bool,
}

impl PreviewModel {
    /// The furthest the document scrolls: its last line on top.
    pub open spec fn max_scroll(self) -> nat {
        if self.content.len() == 0 {
            0
        } else {
            (self.content.len() - 1) as nat
        }
    }

    /// What holds of a document at every moment: the lines are those of
    /// its raw source, the count is that of its characters, and the
    /// scroll position is within the lines.
    pub open spec fn wf(self) -> bool {
        &&& self.content == rendered_spec(self.raw_source, self.kind)
        &&& self.char_count == self.raw_source.len()
        &&& self.scroll <= self.max_scroll()
    }

    /// The document as it is first shown.
    pub open spec fn fresh(
        title: Seq<char>,
        raw_source: Seq<char>,
        kind: DocumentKind,
        clipboard_ready: bool,
    ) -> PreviewModel {
        PreviewModel {
            title,
            raw_source,
            kind,
            content: rendered_spec(raw_source, kind),
            scroll: 0,
            char_count: raw_source.len(),
            status: None,
            clipboard_ready,
        }
    }

    /// The footer: the title, the count of characters, and the status
    /// message or the help.
    pub open spec fn footer(self) -> Seq<char> {
        self.title + footer_bar() + decimal_of(self.char_count) + footer_unit() + match self.status {
            Some(m) => m,
            None => preview_help_text(),
        }
    }

    /// One line up, unless the first line is on top.
    pub open spec fn scrolled_up(self) -> PreviewModel {
        PreviewModel {
            scroll: if self.scroll > 0 {
                (self.scroll - 1) as nat
            } else {
                0
            },
            ..self
        }
    }

    /// One line down, unless the last line is on top.
    pub open spec fn scrolled_down(self) -> PreviewModel {
        PreviewModel {
            scroll: if self.scroll < self.max_scroll() {
                self.scroll + 1
            } else {
                self.scroll
            },
            ..self
        }
    }

    /// After an attempt to copy: a message when it failed, none when
    /// it went well.
    pub open spec fn after_copy(self, outcome: CopyOutcomeModel) -> PreviewModel {
        match outcome {
            CopyOutcomeModel::Unavailable => PreviewModel {
                status: Some(clipboard_missing_text()),
                clipboard_ready: false,
                ..self
            },
            CopyOutcomeModel::Failed(reason) => PreviewModel {
                status: Some(copy_failed_text() + reason),
                clipboard_ready: true,
                ..self
            },
            CopyOutcomeModel::Copied => PreviewModel {
                status: None,
                clipboard_ready: true,
                ..self
            },
        }
    }
}

/// A document under preview.
pub struct PreviewState {
    content: Vec<Line>,
    original_text: String,
    kind: DocumentKind,
    scroll: usize,
    title: String,
    char_count: usize,
    status_message: Option<String>,
    clipboard_ready: bool,
}

impl View for PreviewState {
    type V = PreviewModel;

    closed spec fn view(&self) -> PreviewModel {
        PreviewModel {
            title: self.title@,
            raw_source: self.original_text@,
            kind: self.kind,
            content: lines_view(self.content@),
            scroll: self.scroll as nat,
            char_count: self.char_count as nat,
            status: match self.status_message {
                Some(m) => Some(m@),
                None => None,
            },
            clipboard_ready: self.clipboard_ready,
        }
    }
}

impl PreviewState {
    #[verifier::type_invariant]
    spec fn inv(self) -> bool {
        self@.wf()
    }

    /// A preview of plain text: `content` is shown as it is.
    pub fn new_text(title: String, content: String, clipboard_ready: bool) -> (state: PreviewState)
        ensures
            state@ == PreviewModel::fresh(
                title@,
                content@,
                DocumentKind::PlainText,
                clipboard_ready,
            ),
            state@.wf(),
    {
        let char_count = content.as_str().unicode_len();
        let lines = plain_lines(content.as_str());
        PreviewState {
            content: lines,
            original_text: content,
            kind: DocumentKind::PlainText,
            scroll: 0,
            title,
            char_count,
            status_message: None,
            clipboard_ready,
        }
    }

    /// A preview of markup source: `html_source` is shown as text, with
    /// its tags highlighted.
    pub fn new_html(title: String, html_source: String, clipboard_ready: bool) -> (state:
        PreviewState)
        ensures
            state@ == PreviewModel::fresh(
                title@,
                html_source@,
                DocumentKind::Markdown,
                clipboard_ready,
            ),
            state@.wf(),
    {
        let char_count = html_source.as_str().unicode_len();
        let lines = highlight_html(html_source.as_str());
        PreviewState {
            content: lines,
            original_text: html_source,
            kind: DocumentKind::Markdown,
            scroll: 0,
            title,
            char_count,
            status_message: None,
            clipboard_ready,
        }
    }

    /// Renders a file's text for preview. Markdown is converted to HTML
    /// first, and the HTML source is what is shown, highlighted, and
    /// kept as the raw source; plain text is shown and kept as it is.
    pub fn render(title: String, source: String, kind: DocumentKind, clipboard_ready: bool) -> (state:
        PreviewState)
        ensures
            state@ == PreviewModel::fresh(
                title@,
                match kind {
                    DocumentKind::Markdown => markdown_html(source@),
                    DocumentKind::PlainText => source@,
                },
                kind,
                clipboard_ready,
            ),
            state@.wf(),
    {
        match kind {
            DocumentKind::Markdown => {
                let html_source = markdown_to_html(source.as_str());
                PreviewState::new_html(title, html_source, clipboard_ready)
            },
            DocumentKind::PlainText => PreviewState::new_text(title, source, clipboard_ready),
        }
    }

    /// Scrolls one line up, not above the first line.
    pub fn scroll_up(&mut self)
        ensures
            final(self)@ == old(self)@.scrolled_up(),
            final(self)@.wf(),
            final(self)@.scroll <= old(self)@.scroll,
    {
        proof {
            use_type_invariant(&*self);
        }
        if self.scroll > 0 {
            self.scroll = self.scroll - 1;
        }
    }

    /// Scrolls one line down, not below the last line.
    pub fn scroll_down(&mut self)
        ensures
            final(self)@ == old(self)@.scrolled_down(),
            final(self)@.wf(),
            final(self)@.scroll <= final(self)@.max_scroll(),
    {
        proof {
            use_type_invariant(&*self);
        }
        let height = self.content.len();
        let max_scroll: usize = if height == 0 {
            0
        } else {
            height - 1
        };
        if self.scroll < max_scroll {
            self.scroll = self.scroll + 1;
        }
    }

    /// The text that a copy to the clipboard hands out: the raw source,
    /// whatever the document's kind.
    pub fn copy_text(&self) -> (text: &String)
        ensures
            text@ == self@.raw_source,
    {
        &self.original_text
    }

    /// Takes note of how a copy to the clipboard ended. A failure
    /// leaves a message; success takes the message away.
    pub fn copy_to_clipboard(&mut self, outcome: CopyOutcome)
        ensures
            final(self)@ == old(self)@.after_copy(outcome@),
            final(self)@.wf(),
    {
        proof {
            use_type_invariant(&*self);
        }
        match outcome {
            CopyOutcome::Unavailable => {
                self.status_message = Some(String::from_str("clipboard not available"));
                self.clipboard_ready = false;
            },
            CopyOutcome::Failed(reason) => {
                let mut message = String::from_str("copy failed: ");
                message.append(reason.as_str());
                self.status_message = Some(message);
                self.clipboard_ready = true;
            },
            CopyOutcome::Copied => {
                self.status_message = None;
                self.clipboard_ready = true;
            },
        }
    }

    /// The footer's text.
    pub fn footer(&self) -> (text: String)
        ensures
            text@ == self@.footer(),
    {
        let mut text = self.title.clone();
        text.append(" | ");
        text.append(decimal(self.char_count).as_str());
        text.append(" chars | ");
        match &self.status_message {
            Some(m) => {
                text.append(m.as_str());
            },
            None => {
                text.append("Press 'q' to close | 'y' to copy");
            },
        }
        text
    }

    /// The title.
    pub fn title(&self) -> (title: &String)
        ensures
            title@ == self@.title,
    {
        &self.title
    }

    /// The raw source.
    pub fn original_text(&self) -> (text: &String)
        ensures
            text@ == self@.raw_source,
    {
        &self.original_text
    }

    /// How the document is rendered.
    pub fn kind(&self) -> (kind: DocumentKind)
        ensures
            kind == self@.kind,
    {
        self.kind
    }

    /// The rendered lines.
    pub fn content(&self) -> (lines: &Vec<Line>)
        ensures
            lines_view(lines@) == self@.content,
            self@.content == rendered_spec(self@.raw_source, self@.kind),
    {
        proof {
            use_type_invariant(self);
        }
        &self.content
    }

    /// The number of rendered lines.
    pub fn height(&self) -> (height: usize)
        ensures
            height == self@.content.len(),
    {
        self.content.len()
    }

    /// The place of the topmost line shown.
    pub fn scroll(&self) -> (scroll: usize)
        ensures
            scroll == self@.scroll,
            scroll <= self@.max_scroll(),
    {
        proof {
            use_type_invariant(self);
        }
        self.scroll
    }

    /// The number of characters of the raw source.
    pub fn char_count(&self) -> (count: usize)
        ensures
            count == self@.char_count,
            count == self@.raw_source.len(),
    {
        proof {
            use_type_invariant(self);
        }
        self.char_count
    }

    /// The status message, if one is shown.
    pub fn status_message(&self) -> (status: Option<&String>)
        ensures
            match status {
                Some(m) => self@.status == Some(m@),
                None => self@.status is None,
            },
    {
        match &self.status_message {
            Some(m) => Some(m),
            None => None,
        }
    }

    /// Whether a clipboard is at hand.
    pub fn has_clipboard(&self) -> (ready: bool)
        ensures
            ready == self@.clipboard_ready,
    {
        self.clipboard_ready
    }
}

/// Scrolling stays within the document: down never goes beyond the
/// last line, up never above the first, and each moves by one line at
/// most.
pub proof fn lemma_scroll_stays_within(m: PreviewModel)
    requires
        m.wf(),
    ensures
        m.scrolled_down().wf(),
        m.scrolled_up().wf(),
        m.scrolled_down().scroll <= m.max_scroll(),
        m.scroll <= m.scrolled_down().scroll <= m.scroll + 1,
        0 <= m.scrolled_up().scroll <= m.scroll,
        m.scroll - 1 <= m.scrolled_up().scroll,
        m.content.len() > 0 ==> m.scrolled_down().scroll <= m.content.len() - 1,
{
}

/// A copy hands out the raw source and leaves it, and the rendered
/// lines, as they were, however it ends.
pub proof fn lemma_copy_keeps_document(m: PreviewModel, outcome: CopyOutcomeModel)
    requires
        m.wf(),
    ensures
        m.after_copy(outcome).wf(),
        m.after_copy(outcome).raw_source == m.raw_source,
        m.after_copy(outcome).content == m.content,
        m.after_copy(outcome).scroll == m.scroll,
        outcome is Copied ==> m.after_copy(outcome).status is None,
{
}

} // verus!
