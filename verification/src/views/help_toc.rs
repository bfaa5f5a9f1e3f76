//! A table of contents for a help file: a dialog with an outline holding one
//! node per topic, titled as the topic, in order of topic id.
use vstd::prelude::*;
use crate::command::{CM_CANCEL, CM_OK};
use crate::geometry::{spec_height, spec_width, Point, Rect};
use crate::text::{string_chars, string_from_chars};
use crate::views::dialog::Dialog;
use crate::views::group::ChildInfo;
use crate::views::help_file::{strings_view, HelpFile, TopicView};
use crate::views::outline::Node;

verus! {

/// Where the parts of a contents dialog `w` by `h` go: the prompt, the
/// outline, and the View and Close buttons.
pub open spec fn help_toc_layout(w: int, h: int) -> Seq<Rect> {
    seq![
        Rect { a: Point { x: 2, y: 2 }, b: Point { x: (w - 4) as i16, y: 3 } },
        Rect { a: Point { x: 2, y: 4 }, b: Point { x: (w - 4) as i16, y: (h - 6) as i16 } },
        Rect { a: Point { x: (w - 24) as i16, y: (h - 4) as i16 }, b: Point { x: (w - 14) as i16, y: (h - 2) as i16 } },
        Rect { a: Point { x: (w - 12) as i16, y: (h - 4) as i16 }, b: Point { x: (w - 2) as i16, y: (h - 2) as i16 } },
    ]
}

/// The titles shown by a forest of leaves.
pub open spec fn leaf_titles(ns: Seq<Node<String>>) -> Seq<Seq<char>> {
    ns.map_values(|n: Node<String>| n.data@)
}

pub struct HelpToc {
    dialog: Dialog,
    topics: Vec<Node<String>>,
    selected_topic: Option<String>,
}

impl HelpToc {
    pub closed spec fn spec_dialog(&self) -> Dialog {
        self.dialog
    }

    /// The outline's roots, one per topic.
    pub closed spec fn spec_topics(&self) -> Seq<Node<String>> {
        self.topics@
    }

    pub closed spec fn spec_selected(&self) -> Option<Seq<char>> {
        match self.selected_topic {
            Some(s) => Some(s@),
            None => None,
        }
    }

    pub open spec fn wf(&self) -> bool {
        self.spec_dialog().wf()
    }

    /// A contents dialog in `bounds` titled `title` for `help_file`: one
    /// collapsed leaf per topic, titled as the topic, in order of id.
    pub fn new(bounds: Rect, title: &str, help_file: &HelpFile) -> (t: Self)
        requires
            help_file.wf(),
            i16::MIN + 24 <= spec_width(bounds) <= i16::MAX,
            i16::MIN + 6 <= spec_height(bounds) <= i16::MAX,
        ensures
            t.wf(),
            t.spec_dialog().spec_title() == title@,
            t.spec_dialog().spec_group().spec_bounds() == bounds,
            t.spec_dialog().spec_group().spec_children().len() == 4,
            forall|i: int| 0 <= i < 4 ==> (#[trigger] t.spec_dialog().spec_group().spec_children()[i]).bounds
                == help_toc_layout(spec_width(bounds), spec_height(bounds))[i],
            t.spec_dialog().spec_button_commands() == seq![CM_OK, CM_CANCEL],
            leaf_titles(t.spec_topics()) == help_file.spec_topics().map_values(|v: TopicView| v.title),
            forall|i: int| 0 <= i < t.spec_topics().len() ==> (#[trigger] t.spec_topics()[i]).children@.len() == 0
                && !t.spec_topics()[i].expanded,
            t.spec_selected() is None,
    {
        let mut dialog = Dialog::new(bounds, title);
        let w = bounds.width();
        let h = bounds.height();
        dialog.add_boxed(ChildInfo::new(Rect::new(2, 2, w - 4, 3), false));
        dialog.add_boxed(ChildInfo::new(Rect::new(2, 4, w - 4, h - 6), true));
        dialog.add_button(ChildInfo::new(Rect::new(w - 24, h - 4, w - 14, h - 2), true), CM_OK, true, false);
        dialog.add_button(ChildInfo::new(Rect::new(w - 12, h - 4, w - 2, h - 2), true), CM_CANCEL, false, false);
        assert(dialog.spec_button_commands() =~= seq![CM_OK, CM_CANCEL]);
        let ids = help_file.get_topic_ids();
        let ghost tv = help_file.spec_topics();
        let ghost titles = tv.map_values(|v: TopicView| v.title);
        assert(strings_view(ids@).len() == ids@.len());
        assert(tv.map_values(|v: TopicView| v.id).len() == tv.len());
        let mut topics: Vec<Node<String>> = Vec::new();
        let mut i: usize = 0;
        while i < ids.len()
            invariant
                help_file.wf(),
                tv == help_file.spec_topics(),
                titles == tv.map_values(|v: TopicView| v.title),
                strings_view(ids@) == tv.map_values(|v: TopicView| v.id),
                ids@.len() == tv.len(),
                i <= ids@.len(),
                leaf_titles(topics@) == titles.take(i as int),
                forall|k: int| 0 <= k < topics@.len() ==> (#[trigger] topics@[k]).children@.len() == 0 && !topics@[k].expanded,
            decreases ids.len() - i,
        {
            assert(strings_view(ids@)[i as int] == ids@[i as int]@);
            match help_file.get_topic(ids[i].as_str()) {
                Some(topic) => {
                    proof {
                        let j = choose|j: int| 0 <= j < tv.len() && tv[j] == topic.tview();
                        assert(crate::views::help_file::ids_sorted(tv));
                        crate::text::lemma_seq_lt_trichotomy(tv[i as int].id, tv[i as int].id);
                        if j < i {
                            assert(crate::text::seq_lt(tv[j].id, tv[i as int].id));
                        } else if j > i {
                            assert(crate::text::seq_lt(tv[i as int].id, tv[j].id));
                        }
                        assert(j == i);
                    }
                    let ghost prev = leaf_titles(topics@);
                    let node = Node::new(string_from_chars(&string_chars(&topic.title)));
                    topics.push(node);
                    assert(leaf_titles(topics@) =~= prev.push(titles[i as int]));
                    assert(titles.take(i + 1) =~= titles.take(i as int).push(titles[i as int]));
                },
                None => {
                    assert(tv[i as int].id == ids@[i as int]@);
                },
            }
            i = i + 1;
        }
        assert(titles.take(ids@.len() as int) =~= titles);
        HelpToc { dialog, topics, selected_topic: None }
    }

    pub fn dialog(&self) -> (d: &Dialog)
        ensures
            *d == self.spec_dialog(),
    {
        &self.dialog
    }

    pub fn dialog_mut(&mut self) -> (d: &mut Dialog)
        ensures
            *d == old(self).spec_dialog(),
            final(self).spec_dialog() == *final(d),
            final(self).spec_topics() == old(self).spec_topics(),
            final(self).spec_selected() == old(self).spec_selected(),
    {
        &mut self.dialog
    }

    /// The outline's roots.
    pub fn topics(&self) -> (t: &Vec<Node<String>>)
        ensures
            t@ == self.spec_topics(),
    {
        &self.topics
    }

    /// The topic the dialog answers once it has ended with `result`: the
    /// topic picked when it ended with View, otherwise none.
    pub fn answer(&self, result: u16) -> (r: Option<String>)
        ensures
            result == CM_OK ==> match self.spec_selected() {
                Some(s) => r matches Some(x) && x@ == s,
                None => r is None,
            },
            result != CM_OK ==> r is None,
    {
        if result == CM_OK {
            self.get_selected_topic()
        } else {
            None
        }
    }

    /// The topic picked, if any.
    pub fn get_selected_topic(&self) -> (t: Option<String>)
        ensures
            match self.spec_selected() {
                Some(s) => t matches Some(x) && x@ == s,
                None => t is None,
            },
    {
        match &self.selected_topic {
            Some(s) => Some(string_from_chars(&string_chars(s))),
            None => None,
        }
    }
}

/// Builds a contents dialog from its bounds, title and help file.
pub struct HelpTocBuilder {
    bounds: Option<Rect>,
    title: Option<String>,
    help_file: Option<HelpFile>,
}

impl HelpTocBuilder {
    pub closed spec fn spec_bounds(&self) -> Option<Rect> {
        self.bounds
    }

    pub closed spec fn spec_title(&self) -> Option<Seq<char>> {
        match self.title {
            Some(t) => Some(t@),
            None => None,
        }
    }

    pub closed spec fn spec_help_file(&self) -> Option<HelpFile> {
        self.help_file
    }

    pub fn new() -> (b: Self)
        ensures
            b.spec_bounds() is None,
            b.spec_title() is None,
            b.spec_help_file() is None,
    {
        HelpTocBuilder { bounds: None, title: None, help_file: None }
    }

    pub fn bounds(self, bounds: Rect) -> (b: Self)
        ensures
            b.spec_bounds() == Some(bounds),
            b.spec_title() == self.spec_title(),
            b.spec_help_file() == self.spec_help_file(),
    {
        HelpTocBuilder { bounds: Some(bounds), ..self }
    }

    pub fn title(self, title: &str) -> (b: Self)
        ensures
            b.spec_title() == Some(title@),
            b.spec_bounds() == self.spec_bounds(),
            b.spec_help_file() == self.spec_help_file(),
    {
        HelpTocBuilder { title: Some(title.to_string()), ..self }
    }

    pub fn help_file(self, help_file: HelpFile) -> (b: Self)
        ensures
            b.spec_help_file() == Some(help_file),
            b.spec_bounds() == self.spec_bounds(),
            b.spec_title() == self.spec_title(),
    {
        HelpTocBuilder { help_file: Some(help_file), ..self }
    }

    /// The dialog; bounds, title and help file must all have been given.
    pub fn build(self) -> (t: HelpToc)
        requires
            self.spec_bounds() matches Some(b) && i16::MIN + 24 <= spec_width(b) <= i16::MAX && i16::MIN + 6
                <= spec_height(b) <= i16::MAX,
            self.spec_title() is Some,
            self.spec_help_file() matches Some(h) && h.wf(),
        ensures
            t.wf(),
            t.spec_dialog().spec_title() == self.spec_title()->0,
            t.spec_dialog().spec_group().spec_bounds() == self.spec_bounds()->0,
            leaf_titles(t.spec_topics()) == self.spec_help_file()->0.spec_topics().map_values(|v: TopicView| v.title),
    {
        match (self.bounds, self.title, self.help_file) {
            (Some(b), Some(t), Some(h)) => HelpToc::new(b, t.as_str(), &h),
            _ => {
                proof {
                    assert(false);
                }
                HelpToc::new(Rect::new(0, 0, 40, 20), "", &HelpFile::new("", ""))
            },
        }
    }

    pub fn build_boxed(self) -> (t: Box<HelpToc>)
        requires
            self.spec_bounds() matches Some(b) && i16::MIN + 24 <= spec_width(b) <= i16::MAX && i16::MIN + 6
                <= spec_height(b) <= i16::MAX,
            self.spec_title() is Some,
            self.spec_help_file() matches Some(h) && h.wf(),
        ensures
            t.wf(),
            t.spec_dialog().spec_title() == self.spec_title()->0,
            leaf_titles(t.spec_topics()) == self.spec_help_file()->0.spec_topics().map_values(|v: TopicView| v.title),
    {
        Box::new(self.build())
    }
}

} // verus!
