//! Scrollback lines and the sink that commands write them to.

use vstd::prelude::*;

verus! {

/// Classifies a scrollback line so the panel can color it.
#[derive(Clone, Copy, Debug, PartialEq, Eq, Structural)]
pub enum LineKind {
    /// User-typed input echoed back. Rendered prominent.
    Input,
    /// Command-produced output. Rendered standard.
    Output,
    /// Error from command execution or unknown-command lookup.
    Error,
    /// Console-produced status (e.g., bind set, history cleared).
    System,
}

/// A single line in the scrollback buffer.
#[derive(Clone, Debug)]
pub struct HistoryLine {
    pub kind: LineKind,
    pub text: String,
}

/// What a line says.
pub struct LineView {
    pub kind: LineKind,
    pub text: Seq<char>,
}

impl LineView {
    pub open spec fn input(text: Seq<char>) -> LineView {
        LineView { kind: LineKind::Input, text }
    }

    pub open spec fn output(text: Seq<char>) -> LineView {
        LineView { kind: LineKind::Output, text }
    }

    pub open spec fn error(text: Seq<char>) -> LineView {
        LineView { kind: LineKind::Error, text }
    }

    pub open spec fn system(text: Seq<char>) -> LineView {
        LineView { kind: LineKind::System, text }
    }
}

impl View for HistoryLine {
    type V = LineView;

    open spec fn view(&self) -> LineView {
        LineView { kind: self.kind, text: self.text@ }
    }
}

/// What a list of lines says.
pub open spec fn line_views(s: Seq<HistoryLine>) -> Seq<LineView> {
    s.map_values(|l: HistoryLine| l@)
}

impl HistoryLine {
    pub fn input(text: &str) -> (r: HistoryLine)
        ensures
            r@ == LineView::input(text@),
    {
        HistoryLine { kind: LineKind::Input, text: text.to_owned() }
    }

    pub fn output(text: &str) -> (r: HistoryLine)
        ensures
            r@ == LineView::output(text@),
    {
        HistoryLine { kind: LineKind::Output, text: text.to_owned() }
    }

    pub fn error(text: &str) -> (r: HistoryLine)
        ensures
            r@ == LineView::error(text@),
    {
        HistoryLine { kind: LineKind::Error, text: text.to_owned() }
    }

    pub fn system(text: &str) -> (r: HistoryLine)
        ensures
            r@ == LineView::system(text@),
    {
        HistoryLine { kind: LineKind::System, text: text.to_owned() }
    }
}

/// Per-invocation output sink. Commands push lines; the console drains them into the
/// scrollback after the command returns.
pub struct ConsoleWriter {
    pub lines: Vec<HistoryLine>,
}

impl View for ConsoleWriter {
    type V = Seq<LineView>;

    open spec fn view(&self) -> Seq<LineView> {
        line_views(self.lines@)
    }
}

impl ConsoleWriter {
    pub fn new() -> (r: ConsoleWriter)
        ensures
            r@ == Seq::<LineView>::empty(),
    {
        let r = ConsoleWriter { lines: Vec::new() };
        assert(r@ =~= Seq::<LineView>::empty());
        r
    }

    fn push(&mut self, line: HistoryLine)
        ensures
            final(self)@ == old(self)@.push(line@),
    {
        let ghost before = self.lines@;
        self.lines.push(line);
        assert(line_views(self.lines@) =~= line_views(before).push(line@));
    }

    /// Append a regular output line.
    pub fn line(&mut self, text: &str)
        ensures
            final(self)@ == old(self)@.push(LineView::output(text@)),
    {
        self.push(HistoryLine::output(text));
    }

    /// Append an error line. Use for command-level failures the user should see; report
    /// unrecoverable errors through the command's result instead.
    pub fn error(&mut self, text: &str)
        ensures
            final(self)@ == old(self)@.push(LineView::error(text@)),
    {
        self.push(HistoryLine::error(text));
    }
}

/// Why a command failed, as it is shown to the user.
#[derive(Debug)]
pub struct CommandError {
    pub message: String,
}

impl CommandError {
    pub fn new(message: &str) -> (r: CommandError)
        ensures
            r.message@ == message@,
    {
        CommandError { message: message.to_owned() }
    }
}

/// How a command ended: well, or with a message.
pub type CommandResult = Result<(), CommandError>;

/// The message of a failed command.
pub open spec fn failure(r: CommandResult) -> Option<Seq<char>> {
    match r {
        Ok(_) => None,
        Err(e) => Some(e.message@),
    }
}

// ---------------------------------------------------------------------------
// Laws
// ---------------------------------------------------------------------------

/// A line keeps its text and says what kind it is, and a command's lines come in the order in
/// which it wrote them.
pub proof fn lines_keep_text_and_kind()
    ensures
        forall|t: &str, r: HistoryLine| #[trigger]
            call_ensures(HistoryLine::input, (t,), r) ==> r@.text == t@ && r@.kind
                == LineKind::Input,
        forall|t: &str, r: HistoryLine| #[trigger]
            call_ensures(HistoryLine::output, (t,), r) ==> r@.text == t@ && r@.kind
                == LineKind::Output,
        forall|t: &str, r: HistoryLine| #[trigger]
            call_ensures(HistoryLine::error, (t,), r) ==> r@.text == t@ && r@.kind
                == LineKind::Error,
        forall|t: &str, r: HistoryLine| #[trigger]
            call_ensures(HistoryLine::system, (t,), r) ==> r@.text == t@ && r@.kind
                == LineKind::System,
        forall|w: &mut ConsoleWriter, t: &str, u: ()| #[trigger]
            call_ensures(ConsoleWriter::line, (w, t), u) ==> (*final(w))@.len() == (*w)@.len() + 1
                && (*w)@.is_prefix_of((*final(w))@) && (*final(w))@.last().text == t@ && (
            *final(w))@.last().kind == LineKind::Output,
        forall|w: &mut ConsoleWriter, t: &str, u: ()| #[trigger]
            call_ensures(ConsoleWriter::error, (w, t), u) ==> (*final(w))@.len() == (*w)@.len() + 1
                && (*w)@.is_prefix_of((*final(w))@) && (*final(w))@.last().text == t@ && (
            *final(w))@.last().kind == LineKind::Error,
{
    assert forall|a: Seq<LineView>, x: LineView| true implies a.is_prefix_of(
        #[trigger] a.push(x),
    ) by {
        assert(a =~= a.push(x).subrange(0, a.len() as int));
    }
}

} // verus!
