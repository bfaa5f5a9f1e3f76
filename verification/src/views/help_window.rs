//! A window showing help topics, with a history of the topics left by
//! following links so that the reader can go back and forward.
//!
//! The history holds topics, oldest first, and a position in it: going back
//! shows the entry before the position and moves onto it (from the end of the
//! history it first records the topic shown); going forward shows the entry
//! after the position and moves onto it. Following a link drops the entries
//! from the position on, records the topic being left, and moves the
//! position to the end.
use vstd::prelude::*;
use crate::command::{CM_CANCEL, CM_CLOSE};
use crate::event::{Event, EventType, KB_ESC};
use crate::geometry::{spec_height, spec_width, Rect};
use crate::views::help_file::{strings_view, HelpFile, TopicView};
use crate::views::help_viewer::HelpViewer;
use crate::views::input_line::KB_CTRL_X;

verus! {

/// `a - b` in `i16`, stopping at `i16::MIN`.
pub open spec fn sat_sub16(a: int, b: int) -> int {
    if a - b < i16::MIN {
        i16::MIN as int
    } else {
        a - b
    }
}

/// The viewer's bounds inside a window with bounds `b`: the interior less a
/// column for the scroll bar, in the window's interior space.
pub open spec fn help_viewer_bounds(b: Rect) -> Rect {
    Rect {
        a: crate::geometry::Point { x: 0, y: 0 },
        b: crate::geometry::Point {
            x: sat_sub16(sat_sub16(spec_width(b), 2), 1) as i16,
            y: sat_sub16(spec_height(b), 2) as i16,
        },
    }
}

/// Whether the help file has a topic `id`.
pub open spec fn has_topic(topics: Seq<TopicView>, id: Seq<char>) -> bool {
    exists|i: int| 0 <= i < topics.len() && (#[trigger] topics[i]).id == id
}

/// The history after following a link from position `pos` while showing `cur`.
pub open spec fn history_after_switch(h: Seq<Seq<char>>, pos: int, cur: Option<Seq<char>>) -> Seq<Seq<char>> {
    h.take(pos) + match cur {
        Some(c) => seq![c],
        None => Seq::<Seq<char>>::empty(),
    }
}

/// The history after going back from position `pos` while showing `cur`:
/// from the end of the history, the topic shown is recorded first, so that
/// going forward again can return to it.
pub open spec fn history_after_back(h: Seq<Seq<char>>, pos: int, cur: Option<Seq<char>>) -> Seq<Seq<char>> {
    if pos == h.len() {
        match cur {
            Some(c) => h.push(c),
            None => h,
        }
    } else {
        h
    }
}

/// Following a link and then going back shows the topic the link was
/// followed from: after a switch from topic `c` at position `pos`, going back
/// shows the entry at the new position less one, which is `c`.
pub proof fn law_back_returns_to_the_topic_left(h: Seq<Seq<char>>, pos: int, c: Seq<char>)
    requires
        0 <= pos <= h.len(),
    ensures
        ({
            let h2 = history_after_switch(h, pos, Some(c));
            &&& h2.len() == pos + 1
            &&& h2[h2.len() - 1] == c
        }),
{
}

/// Going back and then forward returns to the topic that going back left:
/// from the end of a history `h` while showing `c`, going back records `c`,
/// and going forward from the new position shows `c` again.
pub proof fn law_forward_undoes_back(h: Seq<Seq<char>>, c: Seq<char>)
    requires
        h.len() > 0,
    ensures
        ({
            let h2 = history_after_back(h, h.len() as int, Some(c));
            let p = h.len() - 1;
            &&& p + 1 < h2.len()
            &&& h2[p + 1] == c
            &&& h2[p] == h[p]
        }),
{
}

pub struct HelpWindow {
    bounds: Rect,
    title: String,
    state: u16,
    end_state: u16,
    viewer: HelpViewer,
    help_file: HelpFile,
    history: Vec<String>,
    history_pos: usize,
}

impl HelpWindow {
    pub closed spec fn spec_bounds(&self) -> Rect {
        self.bounds
    }

    pub closed spec fn spec_title(&self) -> Seq<char> {
        self.title@
    }

    pub closed spec fn spec_state(&self) -> u16 {
        self.state
    }

    pub closed spec fn spec_end_state(&self) -> u16 {
        self.end_state
    }

    pub closed spec fn spec_viewer(&self) -> HelpViewer {
        self.viewer
    }

    pub closed spec fn spec_help_file(&self) -> HelpFile {
        self.help_file
    }

    /// The topics left, oldest first.
    pub closed spec fn spec_history(&self) -> Seq<Seq<char>> {
        strings_view(self.history@)
    }

    pub closed spec fn spec_pos(&self) -> int {
        self.history_pos as int
    }

    /// The topics of the help file.
    pub open spec fn spec_topics(&self) -> Seq<TopicView> {
        self.spec_help_file().spec_topics()
    }

    /// The topic shown.
    pub open spec fn spec_topic(&self) -> Option<Seq<char>> {
        self.spec_viewer().spec_topic()
    }

    /// The help file is well formed, the position lies in the history, the
    /// viewer's width fits an `i16`, and every topic shown or recorded is one
    /// of the file's.
    pub open spec fn wf(&self) -> bool {
        &&& self.spec_help_file().wf()
        &&& 0 <= self.spec_pos() <= self.spec_history().len()
        &&& i16::MIN <= spec_width(self.spec_viewer().spec_bounds()) <= i16::MAX
        &&& self.spec_topic() matches Some(t) ==> has_topic(self.spec_topics(), t)
        &&& forall|i: int| 0 <= i < self.spec_history().len() ==> has_topic(self.spec_topics(), #[trigger] self.spec_history()[i])
    }

    /// A window in `bounds` titled `title` showing topics of `help_file`,
    /// with nothing shown yet and an empty history.
    pub fn new(bounds: Rect, title: &str, help_file: HelpFile) -> (w: Self)
        requires
            help_file.wf(),
            i16::MIN <= spec_width(bounds) <= i16::MAX,
            i16::MIN <= spec_height(bounds) <= i16::MAX,
            spec_width(bounds) > i16::MIN + 3,
        ensures
            w.wf(),
            w.spec_bounds() == bounds,
            w.spec_title() == title@,
            w.spec_help_file() == help_file,
            w.spec_viewer().spec_bounds() == help_viewer_bounds(bounds),
            w.spec_viewer().spec_bar() is Some,
            w.spec_topic() is None,
            w.spec_history().len() == 0,
            w.spec_pos() == 0,
            w.spec_end_state() == 0,
            w.spec_state() == 0,
    {
        let interior_width = sat_sub_i16(bounds.width(), 2);
        let interior_height = sat_sub_i16(bounds.height(), 2);
        let viewer_bounds = Rect::new(0, 0, sat_sub_i16(interior_width, 1), interior_height);
        let viewer = HelpViewer::new(viewer_bounds).with_scrollbar();
        let w = HelpWindow {
            bounds,
            title: title.to_string(),
            state: 0,
            end_state: 0,
            viewer,
            help_file,
            history: Vec::new(),
            history_pos: 0,
        };
        assert(w.spec_history() =~= Seq::<Seq<char>>::empty());
        w
    }

    pub fn bounds(&self) -> (r: Rect)
        ensures
            r == self.spec_bounds(),
    {
        self.bounds
    }

    pub fn title(&self) -> (t: &str)
        ensures
            t@ == self.spec_title(),
    {
        self.title.as_str()
    }

    pub fn state(&self) -> (s: u16)
        ensures
            s == self.spec_state(),
    {
        self.state
    }

    /// Show topic `topic_id` without touching the history; false, with
    /// nothing changed, when the file has no such topic.
    pub fn show_topic(&mut self, topic_id: &str) -> (found: bool)
        requires
            old(self).wf(),
        ensures
            final(self).wf(),
            found == has_topic(old(self).spec_topics(), topic_id@),
            found ==> final(self).spec_topic() == Some(topic_id@),
            !found ==> final(self).spec_viewer() == old(self).spec_viewer(),
            final(self).spec_viewer().spec_bounds() == old(self).spec_viewer().spec_bounds(),
            final(self).spec_help_file() == old(self).spec_help_file(),
            final(self).spec_history() == old(self).spec_history(),
            final(self).spec_pos() == old(self).spec_pos(),
            final(self).spec_bounds() == old(self).spec_bounds(),
            final(self).spec_title() == old(self).spec_title(),
            final(self).spec_state() == old(self).spec_state(),
            final(self).spec_end_state() == old(self).spec_end_state(),
    {
        match self.help_file.get_topic(topic_id) {
            Some(topic) => {
                self.viewer.set_topic(topic);
                true
            },
            None => false,
        }
    }

    /// Show the file's default topic, if it has one.
    pub fn show_default_topic(&mut self)
        requires
            old(self).wf(),
        ensures
            final(self).wf(),
            (match old(self).spec_help_file().spec_default() {
                Some(d) => if has_topic(old(self).spec_topics(), d) {
                    final(self).spec_topic() == Some(d)
                } else {
                    final(self).spec_viewer() == old(self).spec_viewer()
                },
                None => final(self).spec_viewer() == old(self).spec_viewer(),
            }),
            final(self).spec_help_file() == old(self).spec_help_file(),
            final(self).spec_history() == old(self).spec_history(),
            final(self).spec_pos() == old(self).spec_pos(),
            final(self).spec_bounds() == old(self).spec_bounds(),
            final(self).spec_end_state() == old(self).spec_end_state(),
    {
        match self.help_file.get_default_topic() {
            Some(topic) => {
                self.viewer.set_topic(topic);
            },
            None => {},
        }
    }

    /// The id of the topic shown.
    pub fn current_topic(&self) -> (t: Option<String>)
        ensures
            match self.spec_topic() {
                Some(id) => t matches Some(s) && s@ == id,
                None => t is None,
            },
    {
        match self.viewer.current_topic() {
            Some(s) => Some(s.to_string()),
            None => None,
        }
    }

    /// The viewer showing the topics.
    pub fn viewer_rc(&self) -> (v: &HelpViewer)
        ensures
            *v == self.spec_viewer(),
    {
        &self.viewer
    }

    pub fn help_file(&self) -> (h: &HelpFile)
        ensures
            *h == self.spec_help_file(),
    {
        &self.help_file
    }

    /// Follow a link to `topic_id`: when the file has it, drop the history
    /// from the position on, record the topic shown (if any), show the new
    /// topic and move the position to the end of the history. False, with
    /// nothing changed, when the file has no such topic.
    pub fn switch_to_topic(&mut self, topic_id: &str) -> (found: bool)
        requires
            old(self).wf(),
        ensures
            final(self).wf(),
            found == has_topic(old(self).spec_topics(), topic_id@),
            found ==> {
                &&& final(self).spec_topic() == Some(topic_id@)
                &&& final(self).spec_history() == history_after_switch(
                    old(self).spec_history(),
                    old(self).spec_pos(),
                    old(self).spec_topic(),
                )
                &&& final(self).spec_pos() == final(self).spec_history().len()
            },
            !found ==> {
                &&& final(self).spec_viewer() == old(self).spec_viewer()
                &&& final(self).spec_history() == old(self).spec_history()
                &&& final(self).spec_pos() == old(self).spec_pos()
            },
            final(self).spec_help_file() == old(self).spec_help_file(),
            final(self).spec_bounds() == old(self).spec_bounds(),
            final(self).spec_end_state() == old(self).spec_end_state(),
    {
        if !self.help_file.has_topic(topic_id) {
            return false;
        }
        let ghost h0 = self.spec_history();
        let ghost cur = self.spec_topic();
        if self.history_pos < self.history.len() {
            self.history.truncate(self.history_pos);
        }
        proof {
            assert(strings_view(self.history@) =~= h0.take(self.history_pos as int));
        }
        match self.viewer.current_topic() {
            Some(c) => {
                self.history.push(c.to_string());
            },
            None => {},
        }
        proof {
            assert(self.spec_history() =~= history_after_switch(h0, old(self).spec_pos(), cur));
        }
        let found = self.show_topic(topic_id);
        if found {
            self.history_pos = self.history.len();
        }
        found
    }

    /// Go back one entry: show the entry before the position and move onto
    /// it; from the end of the history the topic shown is recorded first, so
    /// that going forward returns to it. False, with nothing changed, at the
    /// start of the history.
    pub fn go_back(&mut self) -> (moved: bool)
        requires
            old(self).wf(),
        ensures
            final(self).wf(),
            moved == (old(self).spec_pos() > 0),
            moved ==> {
                &&& final(self).spec_history() == history_after_back(
                    old(self).spec_history(),
                    old(self).spec_pos(),
                    old(self).spec_topic(),
                )
                &&& final(self).spec_pos() == old(self).spec_pos() - 1
                &&& final(self).spec_topic() == Some(old(self).spec_history()[old(self).spec_pos() - 1])
            },
            !moved ==> final(self).spec_viewer() == old(self).spec_viewer() && final(self).spec_pos()
                == old(self).spec_pos() && final(self).spec_history() == old(self).spec_history(),
            final(self).spec_help_file() == old(self).spec_help_file(),
            final(self).spec_bounds() == old(self).spec_bounds(),
            final(self).spec_end_state() == old(self).spec_end_state(),
    {
        if self.history_pos > 0 {
            if self.history_pos == self.history.len() {
                match self.viewer.current_topic() {
                    Some(c) => {
                        let ghost h0 = self.spec_history();
                        self.history.push(c.to_string());
                        assert(self.spec_history() =~= h0.push(old(self).spec_topic()->0));
                    },
                    None => {},
                }
            }
            self.history_pos = self.history_pos - 1;
            let topic_id = self.history[self.history_pos].clone();
            proof {
                assert(has_topic(self.spec_topics(), self.spec_history()[self.spec_pos()]));
            }
            self.show_topic(topic_id.as_str());
            true
        } else {
            false
        }
    }

    /// Go forward one entry: show the entry after the position and move onto
    /// it. False, with nothing changed, when no entry follows.
    pub fn go_forward(&mut self) -> (moved: bool)
        requires
            old(self).wf(),
        ensures
            final(self).wf(),
            moved == (old(self).spec_pos() + 1 < old(self).spec_history().len()),
            moved ==> {
                &&& final(self).spec_pos() == old(self).spec_pos() + 1
                &&& final(self).spec_topic() == Some(old(self).spec_history()[old(self).spec_pos() + 1])
            },
            !moved ==> final(self).spec_viewer() == old(self).spec_viewer() && final(self).spec_pos()
                == old(self).spec_pos(),
            final(self).spec_history() == old(self).spec_history(),
            final(self).spec_help_file() == old(self).spec_help_file(),
            final(self).spec_bounds() == old(self).spec_bounds(),
            final(self).spec_end_state() == old(self).spec_end_state(),
    {
        if self.history.len() > 0 && self.history_pos < self.history.len() - 1 {
            self.history_pos = self.history_pos + 1;
            let topic_id = self.history[self.history_pos].clone();
            proof {
                assert(has_topic(self.spec_topics(), self.spec_history()[self.spec_pos()]));
            }
            self.show_topic(topic_id.as_str());
            true
        } else {
            false
        }
    }

    pub fn can_go_back(&self) -> (b: bool)
        ensures
            b == (self.spec_pos() > 0),
    {
        self.history_pos > 0
    }

    pub fn can_go_forward(&self) -> (b: bool)
        ensures
            b == (self.spec_pos() + 1 < self.spec_history().len()),
    {
        self.history.len() > 0 && self.history_pos < self.history.len() - 1
    }

    /// The topic offered when the reader asks to pick one: the first topic
    /// of the file, if it has any.
    pub fn make_select_topic(&self) -> (t: Option<String>)
        requires
            self.wf(),
        ensures
            self.spec_topics().len() == 0 ==> t is None,
            self.spec_topics().len() > 0 ==> (t matches Some(s) && s@ == self.spec_topics()[0].id),
    {
        let topics = self.help_file.get_topic_ids();
        proof {
            assert(strings_view(topics@).len() == topics@.len());
            assert(self.spec_topics().map_values(|t: TopicView| t.id).len() == self.spec_topics().len());
        }
        if topics.len() == 0 {
            return None;
        }
        proof {
            assert(strings_view(topics@)[0] == topics@[0]@);
        }
        Some(topics[0].clone())
    }

    /// End the window's modal run with `command`.
    pub fn end_modal(&mut self, command: u16)
        ensures
            final(self).spec_end_state() == command,
            final(self).spec_viewer() == old(self).spec_viewer(),
            final(self).spec_help_file() == old(self).spec_help_file(),
            final(self).spec_history() == old(self).spec_history(),
            final(self).spec_pos() == old(self).spec_pos(),
            final(self).spec_bounds() == old(self).spec_bounds(),
            final(self).spec_title() == old(self).spec_title(),
            final(self).spec_state() == old(self).spec_state(),
    {
        self.end_state = command;
    }

    /// The command that ended the modal run; 0 while it runs.
    pub fn end_state(&self) -> (c: u16)
        ensures
            c == self.spec_end_state(),
    {
        self.end_state
    }

    /// Esc, Ctrl+X and the close command end the run with Cancel; other
    /// events go to the viewer, which scrolls.
    pub fn handle_event(&mut self, event: &mut Event)
        requires
            old(self).wf(),
        ensures
            final(self).wf(),
            final(self).spec_help_file() == old(self).spec_help_file(),
            final(self).spec_history() == old(self).spec_history(),
            final(self).spec_pos() == old(self).spec_pos(),
            final(self).spec_bounds() == old(self).spec_bounds(),
            final(self).spec_topic() == old(self).spec_topic(),
            ({
                let e = *old(event);
                if (e.what == EventType::Keyboard && (e.key_code == KB_ESC || e.key_code == KB_CTRL_X)) || (e.what
                    == EventType::Command && e.command == CM_CLOSE) {
                    &&& final(self).spec_end_state() == CM_CANCEL
                    &&& *final(event) == (Event { what: EventType::Nothing, ..e })
                    &&& final(self).spec_viewer() == old(self).spec_viewer()
                } else {
                    final(self).spec_end_state() == old(self).spec_end_state()
                }
            }),
    {
        if event.what == EventType::Keyboard && (event.key_code == KB_ESC || event.key_code == KB_CTRL_X) {
            self.end_state = CM_CANCEL;
            event.clear();
            return;
        }
        if event.what == EventType::Command && event.command == CM_CLOSE {
            self.end_state = CM_CANCEL;
            event.clear();
            return;
        }
        self.viewer.handle_event(event);
    }
}

/// `a - b`, stopping at `i16::MIN`.
fn sat_sub_i16(a: i16, b: i16) -> (r: i16)
    requires
        0 <= b,
    ensures
        r == sat_sub16(a as int, b as int),
{
    let d: i32 = a as i32 - b as i32;
    if d < -32768 {
        -32768
    } else {
        d as i16
    }
}

/// Builds a help window from its bounds, title and help file.
pub struct HelpWindowBuilder {
    bounds: Option<Rect>,
    title: Option<String>,
    help_file: Option<HelpFile>,
}

impl HelpWindowBuilder {
    pub closed spec fn spec_bounds(&self) -> Option<Rect> {
        self.bounds
    }

    pub closed spec fn spec_title(&self) -> Option<Seq<char>> {
        match self.title {
            Some(t) => Some(t@),
            None => None,
        }
    }

    pub closed spec fn spec_help_file(&self) -> Option<HelpFile> {
        self.help_file
    }

    pub fn new() -> (b: Self)
        ensures
            b.spec_bounds() is None,
            b.spec_title() is None,
            b.spec_help_file() is None,
    {
        HelpWindowBuilder { bounds: None, title: None, help_file: None }
    }

    pub fn bounds(self, bounds: Rect) -> (b: Self)
        ensures
            b.spec_bounds() == Some(bounds),
            b.spec_title() == self.spec_title(),
            b.spec_help_file() == self.spec_help_file(),
    {
        HelpWindowBuilder { bounds: Some(bounds), ..self }
    }

    pub fn title(self, title: &str) -> (b: Self)
        ensures
            b.spec_title() == Some(title@),
            b.spec_bounds() == self.spec_bounds(),
            b.spec_help_file() == self.spec_help_file(),
    {
        HelpWindowBuilder { title: Some(title.to_string()), ..self }
    }

    pub fn help_file(self, help_file: HelpFile) -> (b: Self)
        ensures
            b.spec_help_file() == Some(help_file),
            b.spec_bounds() == self.spec_bounds(),
            b.spec_title() == self.spec_title(),
    {
        HelpWindowBuilder { help_file: Some(help_file), ..self }
    }

    /// The window; bounds, title and help file must all have been given.
    pub fn build(self) -> (w: HelpWindow)
        requires
            self.spec_bounds() matches Some(b) && i16::MIN <= spec_width(b) <= i16::MAX && i16::MIN <= spec_height(b)
                <= i16::MAX && spec_width(b) > i16::MIN + 3,
            self.spec_title() is Some,
            self.spec_help_file() matches Some(h) && h.wf(),
        ensures
            w.wf(),
            w.spec_bounds() == self.spec_bounds()->0,
            w.spec_title() == self.spec_title()->0,
            w.spec_help_file() == self.spec_help_file()->0,
            w.spec_topic() is None,
            w.spec_history().len() == 0,
    {
        match (self.bounds, self.title, self.help_file) {
            (Some(b), Some(t), Some(h)) => HelpWindow::new(b, t.as_str(), h),
            _ => {
                proof {
                    assert(false);
                }
                HelpWindow::new(Rect::new(0, 0, 0, 0), "", HelpFile::new("", ""))
            },
        }
    }

    pub fn build_boxed(self) -> (w: Box<HelpWindow>)
        requires
            self.spec_bounds() matches Some(b) && i16::MIN <= spec_width(b) <= i16::MAX && i16::MIN <= spec_height(b)
                <= i16::MAX && spec_width(b) > i16::MIN + 3,
            self.spec_title() is Some,
            self.spec_help_file() matches Some(h) && h.wf(),
        ensures
            w.wf(),
            w.spec_bounds() == self.spec_bounds()->0,
            w.spec_title() == self.spec_title()->0,
            w.spec_help_file() == self.spec_help_file()->0,
    {
        Box::new(self.build())
    }
}

} // verus!
