//! An index of help topics: a dialog listing every topic of a help file by
//! title, in order of title, topics with equal titles in order of id.
use vstd::prelude::*;
use crate::command::{CM_CANCEL, CM_OK};
use crate::event::{spec_command, Event, EventType};
use crate::geometry::{spec_height, spec_width, Point, Rect};
use crate::text::{
    compare_chars, lemma_seq_lt_trans, lemma_seq_lt_trichotomy, seq_lt, string_chars, string_from_chars, Order,
};
use crate::views::dialog::Dialog;
use crate::views::group::ChildInfo;
use crate::views::help_file::{HelpFile, TopicView};

verus! {

/// The command the topic list issues when a topic is chosen in it.
pub const CMD_TOPIC_SELECTED: u16 = 1002;

/// `(id, title)` of each topic.
pub open spec fn id_title_pairs(topics: Seq<TopicView>) -> Seq<(Seq<char>, Seq<char>)> {
    topics.map_values(|t: TopicView| (t.id, t.title))
}

/// The views of pairs of strings.
pub open spec fn pairs_view(v: Seq<(String, String)>) -> Seq<(Seq<char>, Seq<char>)> {
    v.map_values(|p: (String, String)| (p.0@, p.1@))
}

/// Where a pair titled `k` goes among `out`, looking from `j` on: before the
/// first pair whose title comes after `k`.
pub open spec fn title_position(out: Seq<(Seq<char>, Seq<char>)>, k: Seq<char>, j: int) -> int
    decreases out.len() - j,
{
    if j >= out.len() {
        out.len() as int
    } else if seq_lt(k, out[j].1) {
        j
    } else {
        title_position(out, k, j + 1)
    }
}

/// `ps` sorted by title, pairs with equal titles keeping their order.
pub open spec fn sorted_by_title(ps: Seq<(Seq<char>, Seq<char>)>) -> Seq<(Seq<char>, Seq<char>)>
    decreases ps.len(),
{
    if ps.len() == 0 {
        ps
    } else {
        let out = sorted_by_title(ps.drop_last());
        out.insert(title_position(out, ps.last().1, 0), ps.last())
    }
}

/// Whether no pair of `s` has a title before the title of an earlier pair.
pub open spec fn ordered_by_title(s: Seq<(Seq<char>, Seq<char>)>) -> bool {
    forall|i: int, j: int| 0 <= i < j < s.len() ==> !seq_lt(#[trigger] s[j].1, #[trigger] s[i].1)
}

proof fn lemma_title_position(out: Seq<(Seq<char>, Seq<char>)>, k: Seq<char>, j: int)
    requires
        0 <= j <= out.len(),
    ensures
        j <= title_position(out, k, j) <= out.len(),
        forall|t: int| j <= t < title_position(out, k, j) ==> !seq_lt(k, (#[trigger] out[t]).1),
        title_position(out, k, j) < out.len() ==> seq_lt(k, out[title_position(out, k, j)].1),
    decreases out.len() - j,
{
    if j < out.len() && !seq_lt(k, out[j].1) {
        lemma_title_position(out, k, j + 1);
    }
}

/// Sorting by title puts the titles in order and keeps every pair.
pub proof fn law_index_is_ordered_and_complete(ps: Seq<(Seq<char>, Seq<char>)>)
    ensures
        ordered_by_title(sorted_by_title(ps)),
        sorted_by_title(ps).to_multiset() == ps.to_multiset(),
    decreases ps.len(),
{
    broadcast use vstd::seq_lib::group_to_multiset_ensures;

    if ps.len() == 0 {
        assert(sorted_by_title(ps) =~= ps);
    } else {
        let rest = ps.drop_last();
        let x = ps.last();
        law_index_is_ordered_and_complete(rest);
        let out = sorted_by_title(rest);
        let k = x.1;
        let p = title_position(out, k, 0);
        lemma_title_position(out, k, 0);
        let res = out.insert(p, x);
        assert(res == sorted_by_title(ps));
        assert forall|i: int, j: int| 0 <= i < j < res.len() implies !seq_lt(
            #[trigger] res[j].1,
            #[trigger] res[i].1,
        ) by {
            if i == p {
                let q = j - 1;
                assert(res[j] == out[q]);
                assert(p < out.len());
                if q > p {
                    assert(!seq_lt(out[q].1, out[p].1));
                }
                if seq_lt(out[q].1, k) {
                    lemma_seq_lt_trans(out[q].1, k, out[p].1);
                    lemma_seq_lt_trichotomy(out[q].1, out[p].1);
                }
            } else if j == p {
                assert(res[i] == out[i]);
                assert(!seq_lt(k, out[i].1));
            } else {
                let oi = if i < p { i } else { i - 1 };
                let oj = if j < p { j } else { j - 1 };
                assert(res[i] == out[oi]);
                assert(res[j] == out[oj]);
            }
        }
        assert(ps =~= rest.push(x));
    }
}

/// `v` as new strings, in order.
fn copy_pair(p: &(String, String)) -> (q: (String, String))
    ensures
        q.0@ == p.0@,
        q.1@ == p.1@,
{
    (string_from_chars(&string_chars(&p.0)), string_from_chars(&string_chars(&p.1)))
}

/// `pairs` sorted by title, pairs with equal titles keeping their order.
pub fn sort_by_title(pairs: &Vec<(String, String)>) -> (out: Vec<(String, String)>)
    ensures
        pairs_view(out@) == sorted_by_title(pairs_view(pairs@)),
{
    let ghost pv = pairs_view(pairs@);
    let mut out: Vec<(String, String)> = Vec::new();
    let mut i: usize = 0;
    while i < pairs.len()
        invariant
            i <= pairs@.len(),
            pv == pairs_view(pairs@),
            pairs_view(out@) == sorted_by_title(pv.take(i as int)),
        decreases pairs.len() - i,
    {
        let ghost ov = pairs_view(out@);
        let key = string_chars(&pairs[i].1);
        assert(pv[i as int] == (pairs@[i as int].0@, pairs@[i as int].1@));
        let mut j: usize = 0;
        while j < out.len()
            invariant
                j <= out@.len(),
                ov == pairs_view(out@),
                key@ == pv[i as int].1,
                title_position(ov, key@, j as int) == title_position(ov, key@, 0),
                i < pairs@.len(),
                pv == pairs_view(pairs@),
            ensures
                j <= out@.len(),
                title_position(ov, key@, 0) == j,
            decreases out.len() - j,
        {
            let other = string_chars(&out[j].1);
            assert(ov[j as int] == (out@[j as int].0@, out@[j as int].1@));
            if compare_chars(&key, &other) == Order::Before {
                break;
            }
            j = j + 1;
        }
        let copy = copy_pair(&pairs[i]);
        out.insert(j, copy);
        assert(pv.take(i + 1).drop_last() =~= pv.take(i as int));
        assert(pairs_view(out@) =~= ov.insert(j as int, pv[i as int]));
        i = i + 1;
    }
    assert(pv.take(pairs@.len() as int) =~= pv);
    out
}

/// Where the parts of a help index dialog `w` by `h` go: the prompt, the
/// search label and input, the list label and the topic list, and the View
/// and Close buttons.
pub open spec fn help_index_layout(w: int, h: int) -> Seq<Rect> {
    seq![
        Rect { a: Point { x: 2, y: 2 }, b: Point { x: (w - 4) as i16, y: 3 } },
        Rect { a: Point { x: 2, y: 4 }, b: Point { x: 10, y: 5 } },
        Rect { a: Point { x: 10, y: 4 }, b: Point { x: (w - 4) as i16, y: 5 } },
        Rect { a: Point { x: 2, y: 6 }, b: Point { x: 12, y: 7 } },
        Rect { a: Point { x: 2, y: 7 }, b: Point { x: (w - 4) as i16, y: (h - 6) as i16 } },
        Rect { a: Point { x: (w - 24) as i16, y: (h - 4) as i16 }, b: Point { x: (w - 14) as i16, y: (h - 2) as i16 } },
        Rect { a: Point { x: (w - 12) as i16, y: (h - 4) as i16 }, b: Point { x: (w - 2) as i16, y: (h - 2) as i16 } },
    ]
}

pub struct HelpIndex {
    dialog: Dialog,
    all_topics: Vec<(String, String)>,
    filtered_topics: Vec<(String, String)>,
    selected_topic: Option<String>,
}

impl HelpIndex {
    pub closed spec fn spec_dialog(&self) -> Dialog {
        self.dialog
    }

    /// Every topic as `(id, title)`, in order of title.
    pub closed spec fn spec_topics(&self) -> Seq<(Seq<char>, Seq<char>)> {
        pairs_view(self.all_topics@)
    }

    /// The topics the list shows.
    pub closed spec fn spec_filtered(&self) -> Seq<(Seq<char>, Seq<char>)> {
        pairs_view(self.filtered_topics@)
    }

    pub closed spec fn spec_selected(&self) -> Option<Seq<char>> {
        match self.selected_topic {
            Some(s) => Some(s@),
            None => None,
        }
    }

    pub open spec fn wf(&self) -> bool {
        self.spec_dialog().wf()
    }

    /// A help index dialog in `bounds` titled `title` listing the topics of
    /// `help_file` in order of title.
    pub fn new(bounds: Rect, title: &str, help_file: &HelpFile) -> (x: Self)
        requires
            help_file.wf(),
            i16::MIN + 24 <= spec_width(bounds) <= i16::MAX,
            i16::MIN + 6 <= spec_height(bounds) <= i16::MAX,
        ensures
            x.wf(),
            x.spec_dialog().spec_title() == title@,
            x.spec_dialog().spec_group().spec_bounds() == bounds,
            x.spec_dialog().spec_group().spec_children().len() == 7,
            forall|i: int| 0 <= i < 7 ==> (#[trigger] x.spec_dialog().spec_group().spec_children()[i]).bounds
                == help_index_layout(spec_width(bounds), spec_height(bounds))[i],
            x.spec_dialog().spec_button_commands() == seq![CM_OK, CM_CANCEL],
            x.spec_topics() == sorted_by_title(id_title_pairs(help_file.spec_topics())),
            x.spec_filtered() == x.spec_topics(),
            x.spec_selected() is None,
    {
        let mut dialog = Dialog::new(bounds, title);
        let w = bounds.width();
        let h = bounds.height();
        dialog.add_boxed(ChildInfo::new(Rect::new(2, 2, w - 4, 3), false));
        dialog.add_boxed(ChildInfo::new(Rect::new(2, 4, 10, 5), false));
        dialog.add_boxed(ChildInfo::new(Rect::new(10, 4, w - 4, 5), true));
        dialog.add_boxed(ChildInfo::new(Rect::new(2, 6, 12, 7), false));
        dialog.add_boxed(ChildInfo::new(Rect::new(2, 7, w - 4, h - 6), true));
        dialog.add_button(ChildInfo::new(Rect::new(w - 24, h - 4, w - 14, h - 2), true), CM_OK, true, false);
        dialog.add_button(ChildInfo::new(Rect::new(w - 12, h - 4, w - 2, h - 2), true), CM_CANCEL, false, false);
        assert(dialog.spec_button_commands() =~= seq![CM_OK, CM_CANCEL]);
        let ids = help_file.get_topic_ids();
        let ghost tv = help_file.spec_topics();
        assert(crate::views::help_file::strings_view(ids@).len() == ids@.len());
        assert(tv.map_values(|t: TopicView| t.id).len() == tv.len());
        let mut pairs: Vec<(String, String)> = Vec::new();
        let mut i: usize = 0;
        while i < ids.len()
            invariant
                help_file.wf(),
                tv == help_file.spec_topics(),
                crate::views::help_file::strings_view(ids@) == tv.map_values(|t: TopicView| t.id),
                ids@.len() == tv.len(),
                i <= ids@.len(),
                pairs_view(pairs@) == id_title_pairs(tv).take(i as int),
            decreases ids.len() - i,
        {
            assert(crate::views::help_file::strings_view(ids@)[i as int] == ids@[i as int]@);
            match help_file.get_topic(ids[i].as_str()) {
                Some(topic) => {
                    proof {
                        let j = choose|j: int| 0 <= j < tv.len() && tv[j] == topic.tview();
                        assert(crate::views::help_file::ids_sorted(tv));
                        lemma_seq_lt_trichotomy(tv[i as int].id, tv[i as int].id);
                        if j < i {
                            assert(seq_lt(tv[j].id, tv[i as int].id));
                        } else if j > i {
                            assert(seq_lt(tv[i as int].id, tv[j].id));
                        }
                        assert(j == i);
                    }
                    let pair = (string_from_chars(&string_chars(&ids[i])), string_from_chars(&string_chars(&topic.title)));
                    pairs.push(pair);
                    assert(id_title_pairs(tv).take(i + 1) =~= id_title_pairs(tv).take(i as int).push(
                        (tv[i as int].id, tv[i as int].title),
                    ));
                },
                None => {
                    assert(tv[i as int].id == ids@[i as int]@);
                },
            }
            i = i + 1;
        }
        assert(id_title_pairs(tv).take(ids@.len() as int) =~= id_title_pairs(tv));
        let all_topics = sort_by_title(&pairs);
        let mut filtered: Vec<(String, String)> = Vec::new();
        let mut k: usize = 0;
        while k < all_topics.len()
            invariant
                k <= all_topics@.len(),
                pairs_view(filtered@) == pairs_view(all_topics@).take(k as int),
            decreases all_topics.len() - k,
        {
            assert(pairs_view(all_topics@)[k as int] == (all_topics@[k as int].0@, all_topics@[k as int].1@));
            let ghost prev = pairs_view(filtered@);
            filtered.push(copy_pair(&all_topics[k]));
            assert(pairs_view(filtered@) =~= prev.push(pairs_view(all_topics@)[k as int]));
            assert(pairs_view(all_topics@).take(k + 1) =~= pairs_view(all_topics@).take(k as int).push(
                pairs_view(all_topics@)[k as int],
            ));
            k = k + 1;
        }
        assert(pairs_view(all_topics@).take(all_topics@.len() as int) =~= pairs_view(all_topics@));
        HelpIndex { dialog, all_topics, filtered_topics: filtered, selected_topic: None }
    }

    pub fn dialog(&self) -> (d: &Dialog)
        ensures
            *d == self.spec_dialog(),
    {
        &self.dialog
    }

    pub fn dialog_mut(&mut self) -> (d: &mut Dialog)
        ensures
            *d == old(self).spec_dialog(),
            final(self).spec_dialog() == *final(d),
            final(self).spec_topics() == old(self).spec_topics(),
            final(self).spec_filtered() == old(self).spec_filtered(),
            final(self).spec_selected() == old(self).spec_selected(),
    {
        &mut self.dialog
    }

    /// The titles the topic list shows, in order.
    pub fn topic_titles(&self) -> (t: Vec<String>)
        ensures
            t@.map_values(|s: String| s@) == self.spec_filtered().map_values(|p: (Seq<char>, Seq<char>)| p.1),
    {
        let mut t: Vec<String> = Vec::new();
        let mut i: usize = 0;
        while i < self.filtered_topics.len()
            invariant
                i <= self.filtered_topics@.len(),
                t@.map_values(|s: String| s@) == self.spec_filtered().map_values(|p: (Seq<char>, Seq<char>)| p.1).take(
                    i as int,
                ),
            decreases self.filtered_topics.len() - i,
        {
            assert(self.spec_filtered()[i as int] == (self.filtered_topics@[i as int].0@, self.filtered_topics@[i as int].1@));
            let c = string_chars(&self.filtered_topics[i].1);
            let ghost prev = t@.map_values(|s: String| s@);
            let ghost titles = self.spec_filtered().map_values(|p: (Seq<char>, Seq<char>)| p.1);
            t.push(string_from_chars(&c));
            assert(t@.map_values(|s: String| s@) =~= prev.push(titles[i as int]));
            assert(titles.take(i + 1) =~= titles.take(i as int).push(titles[i as int]));
            i = i + 1;
        }
        assert(self.spec_filtered().map_values(|p: (Seq<char>, Seq<char>)| p.1).take(i as int) =~= self.spec_filtered().map_values(
            |p: (Seq<char>, Seq<char>)| p.1,
        ));
        t
    }

    /// The topic the dialog answers once it has ended with `result`: with
    /// View pressed, the first topic listed; otherwise none.
    pub fn answer(&self, result: u16) -> (r: Option<String>)
        ensures
            (result == CM_OK && self.spec_filtered().len() > 0) ==> (r matches Some(s) && s@
                == self.spec_filtered()[0].0),
            !(result == CM_OK && self.spec_filtered().len() > 0) ==> r is None,
    {
        if result == CM_OK && self.filtered_topics.len() > 0 {
            let c = string_chars(&self.filtered_topics[0].0);
            Some(string_from_chars(&c))
        } else {
            None
        }
    }

    /// The topic picked, if any.
    pub fn get_selected_topic(&self) -> (t: Option<String>)
        ensures
            match self.spec_selected() {
                Some(s) => t matches Some(x) && x@ == s,
                None => t is None,
            },
    {
        match &self.selected_topic {
            Some(s) => {
                let c = string_chars(s);
                Some(string_from_chars(&c))
            },
            None => None,
        }
    }

    /// A topic chosen in the list becomes OK before the dialog sees it.
    pub fn prepare_event(&self, event: &mut Event)
        ensures
            (old(event).what == EventType::Command && old(event).command == CMD_TOPIC_SELECTED) ==> *final(event)
                == spec_command(CM_OK),
            !(old(event).what == EventType::Command && old(event).command == CMD_TOPIC_SELECTED) ==> *final(event)
                == *old(event),
    {
        if event.what == EventType::Command && event.command == CMD_TOPIC_SELECTED {
            *event = Event::command(CM_OK);
        }
    }
}

/// Builds a help index from its bounds, title and help file.
pub struct HelpIndexBuilder {
    bounds: Option<Rect>,
    title: Option<String>,
    help_file: Option<HelpFile>,
}

impl HelpIndexBuilder {
    pub closed spec fn spec_bounds(&self) -> Option<Rect> {
        self.bounds
    }

    pub closed spec fn spec_title(&self) -> Option<Seq<char>> {
        match self.title {
            Some(t) => Some(t@),
            None => None,
        }
    }

    pub closed spec fn spec_help_file(&self) -> Option<HelpFile> {
        self.help_file
    }

    pub fn new() -> (b: Self)
        ensures
            b.spec_bounds() is None,
            b.spec_title() is None,
            b.spec_help_file() is None,
    {
        HelpIndexBuilder { bounds: None, title: None, help_file: None }
    }

    pub fn bounds(self, bounds: Rect) -> (b: Self)
        ensures
            b.spec_bounds() == Some(bounds),
            b.spec_title() == self.spec_title(),
            b.spec_help_file() == self.spec_help_file(),
    {
        HelpIndexBuilder { bounds: Some(bounds), ..self }
    }

    pub fn title(self, title: &str) -> (b: Self)
        ensures
            b.spec_title() == Some(title@),
            b.spec_bounds() == self.spec_bounds(),
            b.spec_help_file() == self.spec_help_file(),
    {
        HelpIndexBuilder { title: Some(title.to_string()), ..self }
    }

    pub fn help_file(self, help_file: HelpFile) -> (b: Self)
        ensures
            b.spec_help_file() == Some(help_file),
            b.spec_bounds() == self.spec_bounds(),
            b.spec_title() == self.spec_title(),
    {
        HelpIndexBuilder { help_file: Some(help_file), ..self }
    }

    /// The index; bounds, title and help file must all have been given.
    pub fn build(self) -> (x: HelpIndex)
        requires
            self.spec_bounds() matches Some(b) && i16::MIN + 24 <= spec_width(b) <= i16::MAX && i16::MIN + 6
                <= spec_height(b) <= i16::MAX,
            self.spec_title() is Some,
            self.spec_help_file() matches Some(h) && h.wf(),
        ensures
            x.wf(),
            x.spec_dialog().spec_title() == self.spec_title()->0,
            x.spec_dialog().spec_group().spec_bounds() == self.spec_bounds()->0,
            x.spec_topics() == sorted_by_title(id_title_pairs(self.spec_help_file()->0.spec_topics())),
    {
        match (self.bounds, self.title, self.help_file) {
            (Some(b), Some(t), Some(h)) => HelpIndex::new(b, t.as_str(), &h),
            _ => {
                proof {
                    assert(false);
                }
                HelpIndex::new(Rect::new(0, 0, 40, 20), "", &HelpFile::new("", ""))
            },
        }
    }

    pub fn build_boxed(self) -> (x: Box<HelpIndex>)
        requires
            self.spec_bounds() matches Some(b) && i16::MIN + 24 <= spec_width(b) <= i16::MAX && i16::MIN + 6
                <= spec_height(b) <= i16::MAX,
            self.spec_title() is Some,
            self.spec_help_file() matches Some(h) && h.wf(),
        ensures
            x.wf(),
            x.spec_dialog().spec_title() == self.spec_title()->0,
            x.spec_topics() == sorted_by_title(id_title_pairs(self.spec_help_file()->0.spec_topics())),
    {
        Box::new(self.build())
    }
}

} // verus!
