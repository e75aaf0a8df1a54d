//! The editor session: the open files, the editing mode, and the state
//! machine that turns key events into operations on the current file.

use crate::arguments::{ArgsConfig, ArgsConfigView};
use crate::file::laws::{
    lemma_edited_inv, lemma_moved_inv, lemma_saved_inv, lemma_scrolled_down_wf, lemma_scrolled_up_wf,
};
use crate::file::model::{Buffer, Edit, Motion};
use crate::file::OpenFile;
use crate::geometry::TermSize;
use crate::terminal::{
    clear_all, clear_all_text, goto, goto_text, steady_bar, steady_bar_text, steady_block,
    steady_block_text,
};
use crate::text::split_lines;
use vstd::prelude::*;
use vstd::string::StringExecFns;

verus! {

/// The editing mode, which decides what a key means.
#[derive(Debug, Clone, Copy, PartialEq, Eq, Structural)]
pub enum EditorMode {
    Normal,
    Insert,
    Visual,
    VLine,
    Command,
}

/// One of the four arrow keys.
#[derive(Debug, Clone, Copy, PartialEq, Eq, Structural)]
pub enum Direction {
    Left,
    Right,
    Up,
    Down,
}

/// A key event, already decoded from what the terminal sent.
#[derive(Debug, Clone, Copy, PartialEq, Eq, Structural)]
pub enum Key {
    Char(char),
    Enter,
    Backspace,
    Delete,
    Escape,
    Arrow(Direction),
    Ctrl(char),
}

/// What the caller is to do after a key was handled, besides drawing the
/// file again.
#[derive(Debug, Clone, Copy, PartialEq, Eq, Structural)]
pub enum Effect {
    /// Nothing.
    Nothing,
    /// Show the cursor as a bar: insert mode was entered.
    ShowBar,
    /// Show the cursor as a block: insert mode was left.
    ShowBlock,
    /// Write the content of the current file to its path, and report
    /// success with `TextEditor::save_done`.
    Save,
    /// The key arrived in a mode that handles no keys yet. Nothing changed.
    Unsupported,
    /// The key asked for a change that a read-only session refuses. Nothing
    /// changed.
    Rejected,
}

/// Number of blanks that a tabulator inserts.
pub const TAB_WIDTH: usize = 4;

impl EditorMode {
    /// The name of the mode, as the status line shows it.
    pub open spec fn name(self) -> Seq<char> {
        match self {
            EditorMode::Normal => "Normal"@,
            EditorMode::Insert => "Insert"@,
            EditorMode::Visual => "Visual"@,
            EditorMode::VLine => "VLine"@,
            EditorMode::Command => "Command"@,
        }
    }

    /// The name of the mode, as the status line shows it.
    pub fn to_string(&self) -> (name: String)
        ensures
            name@ == self.name(),
    {
        match self {
            EditorMode::Normal => String::from_str("Normal"),
            EditorMode::Insert => String::from_str("Insert"),
            EditorMode::Visual => String::from_str("Visual"),
            EditorMode::VLine => String::from_str("VLine"),
            EditorMode::Command => String::from_str("Command"),
        }
    }
}

impl Effect {
    /// What is written to the terminal to carry the effect out; nothing for
    /// an effect that does not change how the cursor looks.
    pub open spec fn text(self) -> Seq<char> {
        match self {
            Effect::ShowBar => steady_bar_text(),
            Effect::ShowBlock => steady_block_text(),
            _ => Seq::<char>::empty(),
        }
    }

    /// What is to be written to the terminal to carry the effect out.
    pub fn sequence(&self) -> (sequence: String)
        ensures
            sequence@ == self.text(),
    {
        match self {
            Effect::ShowBar => steady_bar(),
            Effect::ShowBlock => steady_block(),
            _ => String::new(),
        }
    }
}

/// Index of the first buffer of `buffers` with path `path`, or the number
/// of buffers where none has it.
pub open spec fn index_of_path(buffers: Seq<Buffer>, path: Seq<char>) -> int
    decreases buffers.len(),
{
    if buffers.len() == 0 {
        0
    } else if buffers[0].path == path {
        0
    } else {
        1 + index_of_path(buffers.drop_first(), path)
    }
}

/// The state of a session.
///
/// Each open file is held once, under its path; `current` is the index of
/// the one that keys act on.
pub struct Session {
    pub quit: bool,
    pub term_size: TermSize,
    pub buffers: Seq<Buffer>,
    pub current: int,
    pub mode: EditorMode,
    pub read_only: bool,
    pub no_color: bool,
}

impl Session {
    /// The invariant of every session: the terminal shows at least one row
    /// of text, there is a current file, every open file is well-formed for
    /// the terminal, and no path is open twice.
    pub open spec fn inv(self) -> bool {
        &&& self.term_size.height >= 2
        &&& 0 <= self.current < self.buffers.len()
        &&& forall|i: int| 0 <= i < self.buffers.len() ==> (#[trigger] self.buffers[i]).wf(self.term_size)
        &&& forall|i: int, j: int|
            0 <= i < j < self.buffers.len() ==> (#[trigger] self.buffers[i]).path
                != (#[trigger] self.buffers[j]).path
    }

    /// The file that keys act on.
    pub open spec fn active(self) -> Buffer {
        self.buffers[self.current]
    }

    /// The session with `buffer` in place of the current file.
    pub open spec fn with_active(self, buffer: Buffer) -> Session {
        Session { buffers: self.buffers.update(self.current, buffer), ..self }
    }

    /// The session with the mode `mode`.
    pub open spec fn with_mode(self, mode: EditorMode) -> Session {
        Session { mode, ..self }
    }

    /// The session that a command line opens, on a terminal of size
    /// `term_size` and a file that holds `lines`.
    pub open spec fn opened(config: ArgsConfigView, term_size: TermSize, lines: Seq<Seq<char>>) -> Session {
        Session {
            quit: false,
            term_size,
            buffers: seq![Buffer::initial(config.file_name, lines)],
            current: 0,
            mode: EditorMode::Normal,
            read_only: config.read_only,
            no_color: config.no_color,
        }
    }

    /// The session with a fresh buffer on `lines` under `path`: in place of
    /// the file that was open under that path, or behind the others.
    pub open spec fn with_file(self, path: Seq<char>, lines: Seq<Seq<char>>) -> Session {
        let at = index_of_path(self.buffers, path);
        if at < self.buffers.len() {
            Session { buffers: self.buffers.update(at, Buffer::initial(path, lines)), ..self }
        } else {
            Session { buffers: self.buffers.push(Buffer::initial(path, lines)), ..self }
        }
    }

    /// An edit of the current file at `now`, which a read-only session
    /// refuses.
    pub open spec fn edit(self, edit: Edit, now: u64) -> (Session, Effect) {
        if self.read_only {
            (self, Effect::Rejected)
        } else {
            (self.with_active(self.active().edited(self.term_size, edit, now)), Effect::Nothing)
        }
    }

    /// A motion in the current file.
    pub open spec fn motion(self, motion: Motion) -> (Session, Effect) {
        (self.with_active(self.active().moved(self.term_size, motion)), Effect::Nothing)
    }

    /// A tabulator typed at `now`: as many blanks as it is wide.
    pub open spec fn tab(self, now: u64) -> (Session, Effect) {
        if self.read_only {
            (self, Effect::Rejected)
        } else {
            (self.with_active(self.active().with_blanks(self.term_size, TAB_WIDTH as nat, now)), Effect::Nothing)
        }
    }

    /// What a key does in normal mode.
    pub open spec fn normal_step(self, key: Key, now: u64) -> (Session, Effect) {
        match key {
            Key::Escape => (Session { quit: true, ..self }, Effect::Nothing),
            Key::Char(c) => {
                if c == 'i' {
                    (self.with_mode(EditorMode::Insert), Effect::ShowBar)
                } else if c == 'a' {
                    (self.motion(Motion::Right { stop_sooner: false }).0.with_mode(EditorMode::Insert), Effect::ShowBar)
                } else if c == 'x' {
                    self.edit(Edit::DeleteUnderCursor, now)
                } else if c == 'h' {
                    self.motion(Motion::Left)
                } else if c == 'l' {
                    self.motion(Motion::Right { stop_sooner: true })
                } else if c == 'k' {
                    self.motion(Motion::Up)
                } else if c == 'j' {
                    self.motion(Motion::Down)
                } else {
                    (self, Effect::Nothing)
                }
            },
            Key::Ctrl(c) => {
                let half = (self.term_size.height / 2) as nat;
                if c == 'u' {
                    (self.with_active(self.active().scrolled_up(half)), Effect::Nothing)
                } else if c == 'd' {
                    (self.with_active(self.active().scrolled_down(self.term_size, half)), Effect::Nothing)
                } else {
                    (self, Effect::Nothing)
                }
            },
            Key::Arrow(Direction::Left) => self.motion(Motion::Left),
            Key::Arrow(Direction::Right) => self.motion(Motion::Right { stop_sooner: true }),
            Key::Arrow(Direction::Up) => self.motion(Motion::Up),
            Key::Arrow(Direction::Down) => self.motion(Motion::Down),
            _ => (self, Effect::Nothing),
        }
    }

    /// What a key does in insert mode.
    pub open spec fn insert_step(self, key: Key, now: u64) -> (Session, Effect) {
        match key {
            Key::Escape => (self.motion(Motion::Left).0.with_mode(EditorMode::Normal), Effect::ShowBlock),
            Key::Enter => self.edit(Edit::InsertNewline, now),
            Key::Char(c) => {
                if c == '\n' {
                    self.edit(Edit::InsertNewline, now)
                } else if c == '\t' {
                    self.tab(now)
                } else {
                    self.edit(Edit::InsertChar(c), now)
                }
            },
            Key::Ctrl(c) => {
                if c == 's' {
                    if self.read_only {
                        (self, Effect::Rejected)
                    } else {
                        (self, Effect::Save)
                    }
                } else {
                    (self, Effect::Nothing)
                }
            },
            Key::Delete => self.edit(Edit::DeleteForward, now),
            Key::Backspace => self.edit(Edit::DeleteBackward, now),
            Key::Arrow(Direction::Left) => self.motion(Motion::Left),
            Key::Arrow(Direction::Right) => self.motion(Motion::Right { stop_sooner: false }),
            Key::Arrow(Direction::Up) => self.motion(Motion::Up),
            Key::Arrow(Direction::Down) => self.motion(Motion::Down),
        }
    }

    /// What a key that arrives at `now` does: the next state, and what the
    /// caller is to do. Visual, line-visual and command mode handle no keys
    /// yet: they say so and change nothing.
    pub open spec fn step(self, key: Key, now: u64) -> (Session, Effect) {
        match self.mode {
            EditorMode::Normal => self.normal_step(key, now),
            EditorMode::Insert => self.insert_step(key, now),
            EditorMode::Visual => (self, Effect::Unsupported),
            EditorMode::VLine => (self, Effect::Unsupported),
            EditorMode::Command => (self, Effect::Unsupported),
        }
    }

    /// The session after the current file was written: the file counts as
    /// saved, and the mode is normal again.
    pub open spec fn save_done(self) -> Session {
        self.with_active(self.active().saved()).with_mode(EditorMode::Normal)
    }

    /// All that is written to draw the session: the current file, then the
    /// cursor put in its place.
    pub open spec fn frame_text(self) -> Seq<char> {
        self.active().frame_text(self.term_size, self.mode.name()) + self.active().cursor_text()
    }
}

/// What is written to clear the terminal: the screen is cleared and the
/// cursor put into its upper left corner.
pub open spec fn clear_text() -> Seq<char> {
    clear_all_text() + goto_text(1, 1)
}

/// Every key keeps the invariant of the session.
pub proof fn lemma_step_inv(session: Session, key: Key, now: u64)
    requires
        session.inv(),
    ensures
        session.step(key, now).0.inv(),
        session.step(key, now).0.term_size == session.term_size,
        session.step(key, now).0.buffers.len() == session.buffers.len(),
        session.step(key, now).0.current == session.current,
        session.step(key, now).0.read_only == session.read_only,
{
    let ts = session.term_size;
    let active = session.active();
    let half = (ts.height / 2) as nat;
    lemma_scrolled_up_wf(active, ts, half);
    lemma_scrolled_down_wf(active, ts, half);
    lemma_blanks_wf(active, ts, TAB_WIDTH as nat, now);
    assert forall|motion: Motion| (#[trigger] active.moved(ts, motion)).wf(ts) && active.moved(
        ts,
        motion,
    ).path == active.path by {
        lemma_moved_inv(active, ts, motion);
    }
    assert forall|edit: Edit| (#[trigger] active.edited(ts, edit, now)).wf(ts) && active.edited(
        ts,
        edit,
        now,
    ).path == active.path by {
        lemma_edited_inv(active, ts, edit, now);
    }
    lemma_scrolled_paths(active, ts, half);
}

/// No key changes what a read-only session holds: the lines of every file,
/// its modified flag and its history stay as they are.
pub proof fn lemma_read_only_keeps_content(session: Session, key: Key, now: u64)
    requires
        session.inv(),
        session.read_only,
    ensures
        ({
            let after = session.step(key, now).0;
            &&& after.buffers.len() == session.buffers.len()
            &&& forall|i: int|
                0 <= i < session.buffers.len() ==> {
                    &&& (#[trigger] after.buffers[i]).lines == session.buffers[i].lines
                    &&& after.buffers[i].modified == session.buffers[i].modified
                    &&& after.buffers[i].undo_stack == session.buffers[i].undo_stack
                    &&& after.buffers[i].redo_stack == session.buffers[i].redo_stack
                }
        }),
{
    let ts = session.term_size;
    let active = session.active();
    let half = (ts.height / 2) as nat;
    lemma_scrolled_content(active, ts, half);
    assert forall|motion: Motion|
        {
            &&& (#[trigger] active.moved(ts, motion)).lines == active.lines
            &&& active.moved(ts, motion).modified == active.modified
            &&& active.moved(ts, motion).undo_stack == active.undo_stack
            &&& active.moved(ts, motion).redo_stack == active.redo_stack
        } by {
        lemma_moved_inv(active, ts, motion);
    }
}

/// Scrolling keeps content, flag and history.
proof fn lemma_scrolled_content(b: Buffer, term_size: TermSize, count: nat)
    requires
        b.wf(term_size),
    ensures
        b.scrolled_up(count).lines == b.lines,
        b.scrolled_up(count).modified == b.modified,
        b.scrolled_up(count).undo_stack == b.undo_stack,
        b.scrolled_up(count).redo_stack == b.redo_stack,
        b.scrolled_down(term_size, count).lines == b.lines,
        b.scrolled_down(term_size, count).modified == b.modified,
        b.scrolled_down(term_size, count).undo_stack == b.undo_stack,
        b.scrolled_down(term_size, count).redo_stack == b.redo_stack,
    decreases count,
{
    if count > 0 {
        let fewer = (count - 1) as nat;
        lemma_scrolled_content(b, term_size, fewer);
        lemma_scrolled_up_wf(b, term_size, fewer);
        lemma_scrolled_down_wf(b, term_size, fewer);
        lemma_moved_inv(b.scrolled_up(fewer), term_size, Motion::ScrollUp);
        lemma_moved_inv(b.scrolled_down(term_size, fewer), term_size, Motion::ScrollDown);
    }
}

/// Typing blanks keeps the invariant and the path.
proof fn lemma_blanks_wf(b: Buffer, term_size: TermSize, count: nat, now: u64)
    requires
        b.wf(term_size),
    ensures
        b.with_blanks(term_size, count, now).wf(term_size),
        b.with_blanks(term_size, count, now).path == b.path,
    decreases count,
{
    if count > 0 {
        lemma_blanks_wf(b, term_size, (count - 1) as nat, now);
        lemma_edited_inv(
            b.with_blanks(term_size, (count - 1) as nat, now),
            term_size,
            Edit::InsertChar(' '),
            now,
        );
    }
}

/// Scrolling keeps the path.
proof fn lemma_scrolled_paths(b: Buffer, term_size: TermSize, count: nat)
    ensures
        b.scrolled_up(count).path == b.path,
        b.scrolled_down(term_size, count).path == b.path,
    decreases count,
{
    if count > 0 {
        lemma_scrolled_paths(b, term_size, (count - 1) as nat);
    }
}

/// Putting a well-formed buffer with the same path in place of the current
/// file keeps the invariant of the session.
proof fn lemma_with_active_inv(session: Session, buffer: Buffer)
    requires
        session.inv(),
        buffer.wf(session.term_size),
        buffer.path == session.active().path,
    ensures
        session.with_active(buffer).inv(),
        session.with_active(buffer).with_mode(EditorMode::Normal).inv(),
        session.with_active(buffer).with_mode(EditorMode::Insert).inv(),
{
}

/// Where no buffer in front of index `at` has the path `path`, and the
/// buffer at `at` has it or `at` is the number of buffers, `at` is the index
/// of `path`.
proof fn lemma_index_of_path(buffers: Seq<Buffer>, path: Seq<char>, at: int)
    requires
        0 <= at <= buffers.len(),
        forall|k: int| 0 <= k < at ==> (#[trigger] buffers[k]).path != path,
        at < buffers.len() ==> buffers[at].path == path,
    ensures
        index_of_path(buffers, path) == at,
    decreases buffers.len(),
{
    if buffers.len() > 0 && at > 0 {
        let rest = buffers.drop_first();
        assert(buffers[0].path != path);
        assert forall|k: int| 0 <= k < at - 1 implies (#[trigger] rest[k]).path != path by {
            assert(rest[k] == buffers[k + 1]);
        }
        lemma_index_of_path(rest, path, at - 1);
    }
}

/// What a vector of open files holds: the state of each.
pub open spec fn buffers_view(files: Seq<OpenFile>) -> Seq<Buffer> {
    Seq::new(files.len(), |i: int| files[i]@)
}

/// An editor session on one terminal.
///
/// The session decides; the caller does the input and output. It hands in
/// the keys it reads, writes out what `clear_terminal` and `render_file`
/// give, and carries out the `Effect` of each key.
#[derive(Debug)]
pub struct TextEditor {
    quit: bool,
    term_size: TermSize,
    open_files: Vec<OpenFile>,
    current_file: usize,
    mode: EditorMode,
    read_only: bool,
    no_color: bool,
}

impl View for TextEditor {
    type V = Session;

    closed spec fn view(&self) -> Session {
        Session {
            quit: self.quit,
            term_size: self.term_size,
            buffers: buffers_view(self.open_files@),
            current: self.current_file as int,
            mode: self.mode,
            read_only: self.read_only,
            no_color: self.no_color,
        }
    }
}

impl TextEditor {
    /// The invariant that the constructor establishes and every method
    /// keeps.
    pub open spec fn inv(&self) -> bool {
        self@.inv()
    }

    /// Starts a session on the file that `config` names, whose content is
    /// `content`, on a terminal of size `term_size`. The terminal has to
    /// show at least one row of text above the status line.
    pub fn new(config: ArgsConfig, term_size: TermSize, content: &str) -> (editor: TextEditor)
        requires
            term_size.height >= 2,
        ensures
            editor@ == Session::opened(config@, term_size, split_lines(content@)),
            editor.inv(),
    {
        let file = OpenFile::from_text(config.file_name, content);
        assert(file.wf(term_size));
        let mut open_files: Vec<OpenFile> = Vec::new();
        open_files.push(file);
        let editor = TextEditor {
            quit: false,
            term_size,
            open_files,
            current_file: 0,
            mode: EditorMode::Normal,
            read_only: config.read_only,
            no_color: config.no_color,
        };
        assert(editor@.buffers =~= seq![Buffer::initial(config@.file_name, split_lines(content@))]);
        editor
    }

    /// Opens `content` as the file at `path`: in place of the file that was
    /// open under that path, or as one more file.
    pub fn open_file(&mut self, path: String, content: &str)
        requires
            old(self).inv(),
        ensures
            final(self)@ == old(self)@.with_file(path@, split_lines(content@)),
            final(self).inv(),
    {
        let mut at: usize = 0;
        while at < self.open_files.len() && !same_string(self.open_files[at].path(), &path)
            invariant
                at <= self.open_files@.len(),
                forall|k: int| 0 <= k < at ==> (#[trigger] self@.buffers[k]).path != path@,
                *self == *old(self),
            decreases self.open_files@.len() - at,
        {
            at += 1;
        }
        proof {
            lemma_index_of_path(self@.buffers, path@, at as int);
            crate::text::lemma_split_nonempty(content@);
        }
        let file = OpenFile::from_text(path, content);
        assert(file.wf(self.term_size));
        if at < self.open_files.len() {
            self.open_files[at] = file;
            assert(self@.buffers =~= old(self)@.buffers.update(at as int, file@));
        } else {
            self.open_files.push(file);
            assert(self@.buffers =~= old(self)@.buffers.push(file@));
        }
    }

    // Reading ---------------------------------------------------------------

    /// Whether the session is over.
    pub fn should_quit(&self) -> (quit: bool)
        ensures
            quit == self@.quit,
    {
        self.quit
    }

    /// The editing mode.
    pub fn mode(&self) -> (mode: EditorMode)
        ensures
            mode == self@.mode,
    {
        self.mode
    }

    /// The size of the terminal.
    pub fn term_size(&self) -> (term_size: TermSize)
        ensures
            term_size == self@.term_size,
    {
        self.term_size
    }

    /// Whether the session refuses to change its files.
    pub fn is_read_only(&self) -> (read_only: bool)
        ensures
            read_only == self@.read_only,
    {
        self.read_only
    }

    /// Whether the session is to be drawn without styled output.
    pub fn is_no_color(&self) -> (no_color: bool)
        ensures
            no_color == self@.no_color,
    {
        self.no_color
    }

    /// The file that keys act on.
    pub fn current_file(&self) -> (file: &OpenFile)
        requires
            self.inv(),
        ensures
            file@ == self@.active(),
            file.wf(self@.term_size),
    {
        &self.open_files[self.current_file]
    }

    /// Puts the session into `mode`.
    pub fn set_mode(&mut self, mode: EditorMode)
        requires
            old(self).inv(),
        ensures
            final(self)@ == old(self)@.with_mode(mode),
            final(self).inv(),
    {
        self.mode = mode;
    }

    // Drawing ---------------------------------------------------------------

    /// What is to be written to clear the terminal.
    pub fn clear_terminal(&self) -> (sequence: String)
        ensures
            sequence@ == clear_text(),
    {
        let home = goto(1, 1);
        clear_all().concat(home.as_str())
    }

    /// All that is to be written to draw the session: the current file with
    /// its status line, then the cursor put in its place.
    pub fn render_file(&self) -> (frame: String)
        requires
            self.inv(),
        ensures
            frame@ == self@.frame_text(),
    {
        let file = &self.open_files[self.current_file];
        assert(file@ == self@.buffers[self.current_file as int]);
        let cursor = file.set_cursor();
        file.render(self.term_size, self.mode.to_string()).concat(cursor.as_str())
    }

    // Keys ------------------------------------------------------------------

    fn apply_motion(&mut self, motion: Motion) -> (effect: Effect)
        requires
            old(self).inv(),
        ensures
            (final(self)@, effect) == old(self)@.motion(motion),
            final(self).inv(),
    {
        let term_size = self.term_size;
        let current = self.current_file;
        proof {
            lemma_moved_inv(old(self)@.active(), term_size, motion);
            lemma_with_active_inv(old(self)@, old(self)@.active().moved(term_size, motion));
        }
        match motion {
            Motion::Left => self.open_files[current].move_left(),
            Motion::Right { stop_sooner } => self.open_files[current].move_right(term_size, stop_sooner),
            Motion::Up => self.open_files[current].move_up(),
            Motion::Down => self.open_files[current].move_down(term_size),
            Motion::ScrollUp => self.open_files[current].scroll_up(),
            Motion::ScrollDown => self.open_files[current].scroll_down(term_size),
        }
        assert(self@.buffers =~= old(self)@.buffers.update(
            current as int,
            old(self)@.active().moved(term_size, motion),
        ));
        Effect::Nothing
    }

    fn apply_edit(&mut self, edit: Edit, now: u64) -> (effect: Effect)
        requires
            old(self).inv(),
        ensures
            (final(self)@, effect) == old(self)@.edit(edit, now),
            final(self).inv(),
    {
        if self.read_only {
            return Effect::Rejected;
        }
        let term_size = self.term_size;
        let current = self.current_file;
        proof {
            lemma_edited_inv(old(self)@.active(), term_size, edit, now);
            lemma_with_active_inv(old(self)@, old(self)@.active().edited(term_size, edit, now));
        }
        match edit {
            Edit::InsertChar(c) => self.open_files[current].handle_char_input_at(term_size, c, now),
            Edit::InsertNewline => self.open_files[current].handle_enter_at(term_size, now),
            Edit::DeleteForward => self.open_files[current].handle_delete_at(now),
            Edit::DeleteBackward => self.open_files[current].handle_backspace_at(now),
            Edit::DeleteUnderCursor => self.open_files[current].delete_char_at_cursor_pos_at(now),
        }
        assert(self@.buffers =~= old(self)@.buffers.update(
            current as int,
            old(self)@.active().edited(term_size, edit, now),
        ));
        Effect::Nothing
    }

    fn apply_tab(&mut self, now: u64) -> (effect: Effect)
        requires
            old(self).inv(),
        ensures
            (final(self)@, effect) == old(self)@.tab(now),
            final(self).inv(),
    {
        if self.read_only {
            return Effect::Rejected;
        }
        let term_size = self.term_size;
        let current = self.current_file;
        let mut typed: usize = 0;
        assert(self@.buffers =~= old(self)@.buffers.update(current as int, old(self)@.active()));
        while typed < TAB_WIDTH
            invariant
                typed <= TAB_WIDTH,
                current < self.open_files@.len(),
                old(self).inv(),
                term_size == old(self)@.term_size,
                current == old(self)@.current,
                self@ == old(self)@.with_active(
                    old(self)@.active().with_blanks(term_size, typed as nat, now),
                ),
            decreases TAB_WIDTH - typed,
        {
            proof {
                lemma_blanks_wf(old(self)@.active(), term_size, typed as nat, now);
                assert(self@.buffers[current as int] == self.open_files@[current as int]@);
            }
            let ghost before = self@.buffers;
            self.open_files[current].handle_char_input_at(term_size, ' ', now);
            assert(self@.buffers =~= before.update(current as int, self.open_files@[current as int]@));
            typed += 1;
            assert(self@.buffers =~= old(self)@.buffers.update(
                current as int,
                old(self)@.active().with_blanks(term_size, typed as nat, now),
            ));
        }
        proof {
            lemma_blanks_wf(old(self)@.active(), term_size, TAB_WIDTH as nat, now);
            lemma_with_active_inv(
                old(self)@,
                old(self)@.active().with_blanks(term_size, TAB_WIDTH as nat, now),
            );
        }
        Effect::Nothing
    }

    fn scroll_half_page(&mut self, up: bool)
        requires
            old(self).inv(),
        ensures
            up ==> final(self)@ == old(self)@.with_active(
                old(self)@.active().scrolled_up((old(self)@.term_size.height / 2) as nat),
            ),
            !up ==> final(self)@ == old(self)@.with_active(
                old(self)@.active().scrolled_down(
                    old(self)@.term_size,
                    (old(self)@.term_size.height / 2) as nat,
                ),
            ),
            final(self).inv(),
    {
        let term_size = self.term_size;
        let current = self.current_file;
        let half = term_size.height / 2;
        let mut done: u16 = 0;
        assert(self@.buffers =~= old(self)@.buffers.update(current as int, old(self)@.active()));
        while done < half
            invariant
                done <= half,
                current < self.open_files@.len(),
                old(self).inv(),
                term_size == old(self)@.term_size,
                current == old(self)@.current,
                up ==> self@ == old(self)@.with_active(old(self)@.active().scrolled_up(done as nat)),
                !up ==> self@ == old(self)@.with_active(
                    old(self)@.active().scrolled_down(term_size, done as nat),
                ),
            decreases half - done,
        {
            proof {
                lemma_scrolled_up_wf(old(self)@.active(), term_size, done as nat);
                lemma_scrolled_down_wf(old(self)@.active(), term_size, done as nat);
                assert(self@.buffers[current as int] == self.open_files@[current as int]@);
            }
            let ghost before = self@.buffers;
            if up {
                self.open_files[current].scroll_up();
            } else {
                self.open_files[current].scroll_down(term_size);
            }
            done += 1;
            assert(self@.buffers =~= before.update(current as int, self.open_files@[current as int]@));
            assert(up ==> self@.buffers =~= old(self)@.buffers.update(
                current as int,
                old(self)@.active().scrolled_up(done as nat),
            ));
            assert(!up ==> self@.buffers =~= old(self)@.buffers.update(
                current as int,
                old(self)@.active().scrolled_down(term_size, done as nat),
            ));
        }
        proof {
            lemma_scrolled_up_wf(old(self)@.active(), term_size, half as nat);
            lemma_scrolled_down_wf(old(self)@.active(), term_size, half as nat);
            lemma_scrolled_paths(old(self)@.active(), term_size, half as nat);
            if up {
                lemma_with_active_inv(old(self)@, old(self)@.active().scrolled_up(half as nat));
            } else {
                lemma_with_active_inv(
                    old(self)@,
                    old(self)@.active().scrolled_down(term_size, half as nat),
                );
            }
        }
    }

    fn enter_insert_mode(&mut self) -> (effect: Effect)
        requires
            old(self).inv(),
        ensures
            final(self)@ == old(self)@.with_mode(EditorMode::Insert),
            effect == Effect::ShowBar,
            final(self).inv(),
    {
        self.mode = EditorMode::Insert;
        Effect::ShowBar
    }

    fn exit_insert_mode(&mut self) -> (effect: Effect)
        requires
            old(self).inv(),
        ensures
            final(self)@ == old(self)@.motion(Motion::Left).0.with_mode(EditorMode::Normal),
            effect == Effect::ShowBlock,
            final(self).inv(),
    {
        self.apply_motion(Motion::Left);
        self.mode = EditorMode::Normal;
        Effect::ShowBlock
    }

    fn handle_input_normal_mode(&mut self, key: Key, now: u64) -> (effect: Effect)
        requires
            old(self).inv(),
        ensures
            (final(self)@, effect) == old(self)@.normal_step(key, now),
            final(self).inv(),
    {
        match key {
            Key::Escape => {
                self.quit = true;
                Effect::Nothing
            },
            Key::Char(c) => {
                if c == 'i' {
                    self.enter_insert_mode()
                } else if c == 'a' {
                    self.apply_motion(Motion::Right { stop_sooner: false });
                    self.enter_insert_mode()
                } else if c == 'x' {
                    self.apply_edit(Edit::DeleteUnderCursor, now)
                } else if c == 'h' {
                    self.apply_motion(Motion::Left)
                } else if c == 'l' {
                    self.apply_motion(Motion::Right { stop_sooner: true })
                } else if c == 'k' {
                    self.apply_motion(Motion::Up)
                } else if c == 'j' {
                    self.apply_motion(Motion::Down)
                } else {
                    Effect::Nothing
                }
            },
            Key::Ctrl(c) => {
                if c == 'u' {
                    self.scroll_half_page(true);
                } else if c == 'd' {
                    self.scroll_half_page(false);
                }
                Effect::Nothing
            },
            Key::Arrow(Direction::Left) => self.apply_motion(Motion::Left),
            Key::Arrow(Direction::Right) => self.apply_motion(Motion::Right { stop_sooner: true }),
            Key::Arrow(Direction::Up) => self.apply_motion(Motion::Up),
            Key::Arrow(Direction::Down) => self.apply_motion(Motion::Down),
            _ => Effect::Nothing,
        }
    }

    fn handle_input_insert_mode(&mut self, key: Key, now: u64) -> (effect: Effect)
        requires
            old(self).inv(),
        ensures
            (final(self)@, effect) == old(self)@.insert_step(key, now),
            final(self).inv(),
    {
        match key {
            Key::Escape => self.exit_insert_mode(),
            Key::Enter => self.apply_edit(Edit::InsertNewline, now),
            Key::Char(c) => {
                if c == '\n' {
                    self.apply_edit(Edit::InsertNewline, now)
                } else if c == '\t' {
                    self.apply_tab(now)
                } else {
                    self.apply_edit(Edit::InsertChar(c), now)
                }
            },
            Key::Ctrl(c) => {
                if c == 's' {
                    if self.read_only {
                        Effect::Rejected
                    } else {
                        Effect::Save
                    }
                } else {
                    Effect::Nothing
                }
            },
            Key::Delete => self.apply_edit(Edit::DeleteForward, now),
            Key::Backspace => self.apply_edit(Edit::DeleteBackward, now),
            Key::Arrow(Direction::Left) => self.apply_motion(Motion::Left),
            Key::Arrow(Direction::Right) => self.apply_motion(Motion::Right { stop_sooner: false }),
            Key::Arrow(Direction::Up) => self.apply_motion(Motion::Up),
            Key::Arrow(Direction::Down) => self.apply_motion(Motion::Down),
        }
    }

    fn handle_input_visual_mode(&mut self, _key: Key) -> (effect: Effect)
        ensures
            *final(self) == *old(self),
            effect == Effect::Unsupported,
    {
        Effect::Unsupported
    }

    fn handle_input_vline_mode(&mut self, _key: Key) -> (effect: Effect)
        ensures
            *final(self) == *old(self),
            effect == Effect::Unsupported,
    {
        Effect::Unsupported
    }

    fn handle_input_command_mode(&mut self, _key: Key) -> (effect: Effect)
        ensures
            *final(self) == *old(self),
            effect == Effect::Unsupported,
    {
        Effect::Unsupported
    }

    /// Handles a key that arrived at `now` on the clock of the current
    /// file, and says what the caller is to do.
    pub fn handle_input_at(&mut self, key: Key, now: u64) -> (effect: Effect)
        requires
            old(self).inv(),
        ensures
            (final(self)@, effect) == old(self)@.step(key, now),
            final(self).inv(),
    {
        match self.mode {
            EditorMode::Normal => self.handle_input_normal_mode(key, now),
            EditorMode::Insert => self.handle_input_insert_mode(key, now),
            EditorMode::Visual => self.handle_input_visual_mode(key),
            EditorMode::VLine => self.handle_input_vline_mode(key),
            EditorMode::Command => self.handle_input_command_mode(key),
        }
    }

    /// Handles a key, and says what the caller is to do. Where the key
    /// edits the file, whether the edit starts a new undo step depends on
    /// the clock.
    pub fn handle_input(&mut self, key: Key) -> (effect: Effect)
        requires
            old(self).inv(),
        ensures
            exists|now: u64| (final(self)@, effect) == old(self)@.step(key, now),
            final(self).inv(),
    {
        let now = self.open_files[self.current_file].clock_millis();
        self.handle_input_at(key, now)
    }

    /// Records that the content of the current file was written: the file
    /// counts as saved and the session is in normal mode again. The cursor
    /// is to be shown as a block.
    pub fn save_done(&mut self) -> (effect: Effect)
        requires
            old(self).inv(),
        ensures
            final(self)@ == old(self)@.save_done(),
            effect == Effect::ShowBlock,
            final(self).inv(),
    {
        let current = self.current_file;
        proof {
            lemma_saved_inv(old(self)@.active());
            lemma_with_active_inv(old(self)@, old(self)@.active().saved());
        }
        self.open_files[current].mark_saved();
        assert(self@.buffers =~= old(self)@.buffers.update(current as int, old(self)@.active().saved()));
        self.mode = EditorMode::Normal;
        Effect::ShowBlock
    }
}

fn same_string(a: &String, b: &String) -> (same: bool)
    ensures
        same == (a@ == b@),
{
    *a == *b
}

} // verus!
