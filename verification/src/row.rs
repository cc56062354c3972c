//! One line of text, edited by grapheme cluster and measured in columns of
//! the screen: a cluster takes one column, a tab as many as a tab is wide.

use crate::editor::TAB_WIDTH;
use crate::grapheme::{
    cluster_start, grapheme_clusters, graphemes, lemma_cluster_start_grows,
    lemma_take_flatten_step, segmented,
};
use vstd::prelude::*;
use vstd::seq_lib::lemma_flatten_concat;
use vstd::std_specs::convert::FromSpecImpl;
use vstd::string::*;

verus! {

/// The test "is the character `c`".
pub open spec fn is_char(c: char) -> spec_fn(char) -> bool {
    |x: char| x == c
}

/// How often `c` stands in `text`.
pub open spec fn count_of(text: Seq<char>, c: char) -> nat {
    text.filter(is_char(c)).len()
}

/// The number of tab characters in `text`.
pub open spec fn tab_count(text: Seq<char>) -> nat {
    count_of(text, '\t')
}

/// The columns that `clusters` clusters take of which `tabs` are tabs, where
/// a tab is `tab_width` columns wide: one for each cluster, and `tab_width`
/// in place of one for each tab. A tab of width 0 takes one column, as any
/// cluster does, and shows as one space.
pub open spec fn columns(clusters: nat, tabs: nat, tab_width: usize) -> nat {
    clusters + tabs * (tab_width.saturating_sub(1) as nat)
}

/// `n`, held to what a `usize` can count.
pub open spec fn saturated(n: nat) -> usize {
    if n <= usize::MAX {
        n as usize
    } else {
        usize::MAX
    }
}

/// The width of `text` on screen: the columns of its grapheme clusters.
pub open spec fn display_width(text: Seq<char>, tab_width: usize) -> nat {
    columns(grapheme_clusters(text).len(), tab_count(text), tab_width)
}

/// `display_width`, held to what a `usize` can count.
pub open spec fn display_len(text: Seq<char>, tab_width: usize) -> usize {
    saturated(display_width(text, tab_width))
}

/// `count` spaces.
pub open spec fn spaces(count: nat) -> Seq<char> {
    Seq::new(count, |i: int| ' ')
}

/// The columns that one cluster takes: one, and for each tab in it as many
/// more as make a tab `tab_width` columns wide. So a tab alone takes
/// `tab_width` columns, or one where `tab_width` is 0, and a cluster without
/// a tab takes one.
pub open spec fn cluster_width(cluster: Seq<char>, tab_width: usize) -> nat {
    columns(1, tab_count(cluster), tab_width)
}

/// The column at which cluster `index` starts: the columns that the clusters
/// before it take. For the number of clusters it is the column behind the
/// last one.
pub open spec fn column_of(clusters: Seq<Seq<char>>, index: int, tab_width: usize) -> nat
    decreases index,
{
    if index <= 0 {
        0
    } else {
        column_of(clusters, index - 1, tab_width) + cluster_width(clusters[index - 1], tab_width)
    }
}

/// `index` is the first cluster boundary at or behind `column`: cluster
/// `index` starts there, or the clusters end there, and no boundary before it
/// reaches `column`.
pub open spec fn is_boundary_at(
    clusters: Seq<Seq<char>>,
    column: int,
    index: int,
    tab_width: usize,
) -> bool {
    &&& 0 <= index <= clusters.len()
    &&& column <= column_of(clusters, index, tab_width)
    &&& forall|before: int| 0 <= before < index ==> column_of(clusters, before, tab_width) < column
}

/// The cluster boundary that stands for `column`: the first at or behind it.
/// A column inside a tab goes with the boundary behind the tab. A column
/// past the end of the clusters has none.
pub open spec fn boundary_at(clusters: Seq<Seq<char>>, column: int, tab_width: usize) -> Option<
    int,
> {
    if exists|index: int| is_boundary_at(clusters, column, index, tab_width) {
        Some(choose|index: int| is_boundary_at(clusters, column, index, tab_width))
    } else {
        None
    }
}

/// What shows in the columns `start..end` of a cluster that starts at column
/// `from`. A tab alone shows a space in each of its columns that lies in the
/// range, so a tab that the range cuts shows in part. Any other cluster shows
/// whole where its first column lies in the range, and not at all where it
/// does not.
pub open spec fn piece(
    cluster: Seq<char>,
    from: int,
    start: int,
    end: int,
    tab_width: usize,
) -> Seq<char> {
    if cluster == seq!['\t'] {
        let low = if start < from { from } else { start };
        let behind = from + cluster_width(cluster, tab_width);
        let high = if end < behind { end } else { behind };
        spaces(if low < high { (high - low) as nat } else { 0 })
    } else if start <= from < end {
        cluster
    } else {
        Seq::empty()
    }
}

/// What shows in the columns `start..end` of the first `count` clusters.
pub open spec fn shown_upto(
    clusters: Seq<Seq<char>>,
    count: int,
    start: int,
    end: int,
    tab_width: usize,
) -> Seq<char>
    decreases count,
{
    if count <= 0 {
        Seq::empty()
    } else {
        shown_upto(clusters, count - 1, start, end, tab_width) + piece(
            clusters[count - 1],
            column_of(clusters, count - 1, tab_width) as int,
            start,
            end,
            tab_width,
        )
    }
}

/// What shows in the columns `start..end` of the clusters.
pub open spec fn shown(clusters: Seq<Seq<char>>, start: int, end: int, tab_width: usize) -> Seq<
    char,
> {
    shown_upto(clusters, clusters.len() as int, start, end, tab_width)
}

/// What shows of `text` between the columns `start` and `end`, after `end`
/// is brought down to the width of the text and `start` down to `end`.
pub open spec fn rendered(text: Seq<char>, start: int, end: int, tab_width: usize) -> Seq<char> {
    let width = display_len(text, tab_width) as int;
    let end = if end < width { end } else { width };
    let start = if start < end { start } else { end };
    shown(grapheme_clusters(text), start, end, tab_width)
}

/// `text` with `c` put in before cluster `index`, or after the last cluster
/// where `index` is their number. Past that, `text` as it is.
pub open spec fn with_inserted(text: Seq<char>, index: int, c: char) -> Seq<char> {
    let clusters = grapheme_clusters(text);
    if 0 <= index <= clusters.len() {
        clusters.take(index).flatten() + seq![c] + clusters.skip(index).flatten()
    } else {
        text
    }
}

/// `text` without cluster `index`. Where there is no such cluster, `text` as
/// it is.
pub open spec fn without(text: Seq<char>, index: int) -> Seq<char> {
    let clusters = grapheme_clusters(text);
    if 0 <= index < clusters.len() {
        clusters.remove(index).flatten()
    } else {
        text
    }
}

/// `text` cut in two at the cluster boundary that stands for column `at`:
/// the first at or behind it, so that a column inside a tab cuts behind the
/// tab, and a column past the end cuts at the end.
pub open spec fn halves(text: Seq<char>, at: int, tab_width: usize) -> (Seq<char>, Seq<char>) {
    let clusters = grapheme_clusters(text);
    let cut = match boundary_at(clusters, at, tab_width) {
        Some(index) => index,
        None => clusters.len() as int,
    };
    (clusters.take(cut).flatten(), clusters.skip(cut).flatten())
}

/// `query` stands in `text` from character `offset` on.
pub open spec fn occurs_at(text: Seq<char>, query: Seq<char>, offset: int) -> bool {
    &&& 0 <= offset
    &&& offset + query.len() <= text.len()
    &&& text.subrange(offset, offset + query.len()) == query
}

/// `offset` is the first place in `text` where `query` stands.
pub open spec fn is_first_occurrence(text: Seq<char>, query: Seq<char>, offset: int) -> bool {
    &&& occurs_at(text, query, offset)
    &&& forall|earlier: int| 0 <= earlier < offset ==> !occurs_at(text, query, earlier)
}

/// The first place in `text` where `query` stands, counted in characters.
pub open spec fn first_occurrence(text: Seq<char>, query: Seq<char>) -> Option<int> {
    if exists|offset: int| is_first_occurrence(text, query, offset) {
        Some(choose|offset: int| is_first_occurrence(text, query, offset))
    } else {
        None
    }
}

/// The cluster that starts at character `offset`, if one does.
pub open spec fn cluster_at(clusters: Seq<Seq<char>>, offset: int) -> Option<int> {
    if exists|index: int| 0 <= index < clusters.len() && cluster_start(clusters, index) == offset {
        Some(
            choose|index: int|
                0 <= index < clusters.len() && cluster_start(clusters, index) == offset,
        )
    } else {
        None
    }
}

/// Where `query` is found in `text`: the index of the cluster at which its
/// first occurrence begins. `None` where it does not occur, and where that
/// occurrence begins inside a cluster.
pub open spec fn found(text: Seq<char>, query: Seq<char>) -> Option<int> {
    match first_occurrence(text, query) {
        Some(offset) => cluster_at(grapheme_clusters(text), offset),
        None => None,
    }
}

/// Trusted: `String::push` of std, which appends one character.
pub assume_specification[ String::push ](s: &mut String, c: char)
    ensures
        final(s)@ == old(s)@.push(c),
;

/// A line of text with its width on a screen where a tab takes a given
/// number of columns.
pub struct Row {
    string: String,
    len: usize,
    tab_width: usize,
}

impl View for Row {
    type V = Seq<char>;

    closed spec fn view(&self) -> Seq<char> {
        self.string@
    }
}

impl From<&str> for Row {
    /// The row of `slice`, with tabs `TAB_WIDTH` columns wide.
    fn from(slice: &str) -> (row: Row)
        ensures
            row.wf(),
            row@ == slice@,
            row.tab_width() == TAB_WIDTH,
            row.len() == display_len(slice@, TAB_WIDTH as usize),
    {
        Row::new(slice, TAB_WIDTH as usize)
    }
}

impl FromSpecImpl<&str> for Row {
    open spec fn obeys_from_spec() -> bool {
        false
    }

    open spec fn from_spec(slice: &str) -> Row {
        arbitrary()
    }
}

impl Default for Row {
    /// The empty row, with tabs `TAB_WIDTH` columns wide.
    fn default() -> (row: Row)
        ensures
            row.wf(),
            row@ == Seq::<char>::empty(),
            row.tab_width() == TAB_WIDTH,
    {
        Row::with_tab_width(TAB_WIDTH as usize)
    }
}

impl Row {
    /// The row knows its width, and its clusters, which can be counted,
    /// divide its text.
    pub closed spec fn wf(&self) -> bool {
        &&& self.len == display_len(self.string@, self.tab_width)
        &&& segmented(self.string@)
        &&& grapheme_clusters(self.string@).len() <= usize::MAX
    }

    /// What `len` returns.
    pub closed spec fn spec_len(&self) -> usize {
        self.len
    }

    /// What `tab_width` returns.
    pub closed spec fn spec_tab_width(&self) -> usize {
        self.tab_width
    }

    /// The row of `text` on a screen where a tab takes `tab_width` columns.
    pub fn new(text: &str, tab_width: usize) -> (row: Row)
        ensures
            row.wf(),
            row@ == text@,
            row.tab_width() == tab_width,
            row.len() == display_len(text@, tab_width),
    {
        let mut row = Row { string: String::from_str(text), len: 0, tab_width };
        row.update_len();
        row
    }

    /// The empty row on a screen where a tab takes `tab_width` columns.
    pub fn with_tab_width(tab_width: usize) -> (row: Row)
        ensures
            row.wf(),
            row@ == Seq::<char>::empty(),
            row.tab_width() == tab_width,
    {
        let mut row = Row { string: String::new(), len: 0, tab_width };
        row.update_len();
        row
    }

    /// The columns that a tab takes in this row.
    #[verifier::when_used_as_spec(spec_tab_width)]
    pub fn tab_width(&self) -> (tab_width: usize)
        ensures
            tab_width == self.spec_tab_width(),
    {
        self.tab_width
    }

    /// A row's width is that of its text, and its text is divided by its
    /// clusters, which can be counted.
    pub proof fn lemma_wf(&self)
        requires
            self.wf(),
        ensures
            self.spec_len() == display_len(self@, self.tab_width()),
            segmented(self@),
            grapheme_clusters(self@).len() <= usize::MAX,
    {
    }

    /// The part of the row between the columns `start` and `end`, tabs shown
    /// as spaces. `end` is brought down to the width of the row, and `start`
    /// down to `end`. No cluster is cut but a tab, of which the spaces in
    /// range show.
    #[must_use]
    pub fn render(&self, start: usize, end: usize) -> (out: String)
        requires
            self.wf(),
        ensures
            out@ == rendered(self@, start as int, end as int, self.tab_width()),
    {
        let end = if end < self.len { end } else { self.len };
        let start = if start < end { start } else { end };
        let clusters = graphemes(self.string.as_str());
        render_clusters(&clusters, start, end, self.tab_width)
    }

    /// The cluster boundary that stands for `column`: the index of the first
    /// cluster that starts at or behind it, or the number of clusters where
    /// the row ends there. `None` for a column past the end of the row.
    pub fn index_at(&self, column: usize) -> (index: Option<usize>)
        ensures
            match index {
                Some(i) => boundary_at(grapheme_clusters(self@), column as int, self.tab_width())
                    == Some(i as int),
                None => boundary_at(grapheme_clusters(self@), column as int, self.tab_width())
                    is None,
            },
    {
        let clusters = graphemes(self.string.as_str());
        boundary_of(&clusters, column, self.tab_width)
    }

    /// The column at which cluster `index` starts, as far as a `usize` can
    /// count; for an `index` from the number of clusters on, the column
    /// behind the last cluster.
    pub fn column_at(&self, index: usize) -> (column: usize)
        ensures
            column == saturated(
                column_of(
                    grapheme_clusters(self@),
                    if index < grapheme_clusters(self@).len() {
                        index as int
                    } else {
                        grapheme_clusters(self@).len() as int
                    },
                    self.tab_width(),
                ),
            ),
    {
        let clusters = graphemes(self.string.as_str());
        let index = if index < clusters.len() { index } else { clusters.len() };
        column_of_cluster(&clusters, index, self.tab_width)
    }

    /// The row's text.
    pub fn contents(&self) -> (text: String)
        ensures
            text@ == self@,
    {
        self.string.clone()
    }

    /// Puts `c` at the end of the row.
    pub fn push(&mut self, c: char)
        ensures
            final(self).wf(),
            final(self)@ == old(self)@.push(c),
            final(self).tab_width() == old(self).tab_width(),
    {
        self.string.push(c);
        self.update_len();
    }

    /// Puts `string` at the end of the row.
    pub fn push_str(&mut self, string: &str)
        ensures
            final(self).wf(),
            final(self)@ == old(self)@ + string@,
            final(self).tab_width() == old(self).tab_width(),
    {
        self.string.append(string);
        self.update_len();
    }

    /// Puts `c` before cluster `index`, or at the end where `index` is the
    /// number of clusters. An `index` past that changes nothing.
    pub fn insert(&mut self, index: usize, c: char)
        requires
            old(self).wf(),
        ensures
            final(self).wf(),
            final(self)@ == with_inserted(old(self)@, index as int, c),
            final(self).tab_width() == old(self).tab_width(),
    {
        let clusters = graphemes(self.string.as_str());
        if index <= clusters.len() {
            let mut text = join_clusters(&clusters, 0, index);
            text.push(c);
            let tail = join_clusters(&clusters, index, clusters.len());
            text.append(tail.as_str());
            self.string = text;
            self.update_len();
        }
    }

    /// Takes cluster `index` out of the row. Where the row has no such
    /// cluster, nothing changes.
    pub fn delete(&mut self, index: usize)
        requires
            old(self).wf(),
        ensures
            final(self).wf(),
            final(self)@ == without(old(self)@, index as int),
            final(self).tab_width() == old(self).tab_width(),
    {
        let clusters = graphemes(self.string.as_str());
        if index < clusters.len() {
            let mut text = join_clusters(&clusters, 0, index);
            let tail = join_clusters(&clusters, index + 1, clusters.len());
            text.append(tail.as_str());
            proof {
                lemma_flatten_concat(
                    clusters.deep_view().subrange(0, index as int),
                    clusters.deep_view().subrange(index + 1, clusters.len() as int),
                );
            }
            self.string = text;
            self.update_len();
        }
    }

    /// Empties the row.
    pub fn clear(&mut self) -> (row: &Self)
        ensures
            final(self).wf(),
            final(self)@ == Seq::<char>::empty(),
            final(self).tab_width() == old(self).tab_width(),
            *row == *final(self),
    {
        self.string = String::new();
        self.update_len();
        self
    }

    /// Empties the row and hands it back for more changes.
    pub fn clear_mut(&mut self) -> (row: &mut Self)
        ensures
            row.wf(),
            row@ == Seq::<char>::empty(),
            row.tab_width() == old(self).tab_width(),
            *final(self) == *final(row),
    {
        self.string = String::new();
        self.update_len();
        self
    }

    /// The row's text as UTF-8.
    pub fn as_bytes(&self) -> (bytes: &[u8])
        ensures
            bytes@ == vstd::utf8::encode_utf8(self@),
    {
        self.string.as_str().as_bytes()
    }

    /// The two rows that cutting this one at column `at` gives. The cut
    /// falls on the first cluster boundary at or behind the column: behind a
    /// tab that the column lies in, and at the end for a column past it.
    pub fn split(&self, at: usize) -> (parts: (Row, Row))
        ensures
            parts.0.wf(),
            parts.1.wf(),
            (parts.0@, parts.1@) == halves(self@, at as int, self.tab_width()),
            parts.0.tab_width() == self.tab_width(),
            parts.1.tab_width() == self.tab_width(),
    {
        let clusters = graphemes(self.string.as_str());
        let at = match boundary_of(&clusters, at, self.tab_width) {
            Some(index) => index,
            None => clusters.len(),
        };
        let left = join_clusters(&clusters, 0, at);
        let right = join_clusters(&clusters, at, clusters.len());
        (Row::new(left.as_str(), self.tab_width), Row::new(right.as_str(), self.tab_width))
    }

    /// The index of the cluster at which the first occurrence of `query`
    /// begins.
    pub fn find(&self, query: &str) -> (index: Option<usize>)
        ensures
            match index {
                Some(i) => found(self@, query@) == Some(i as int),
                None => found(self@, query@) is None,
            },
    {
        let text = chars_of(self.string.as_str());
        let needle = chars_of(query);
        match first_match(&text, &needle) {
            Some(offset) => {
                let clusters = graphemes(self.string.as_str());
                cluster_starting_at(&clusters, offset)
            },
            None => None,
        }
    }

    /// The row's width on screen in columns: one for each cluster, as many as
    /// a tab is wide for each tab.
    #[must_use]
    #[verifier::when_used_as_spec(spec_len)]
    pub fn len(&self) -> (len: usize)
        requires
            self.wf(),
        ensures
            len == self.spec_len(),
            len == display_len(self@, self.tab_width()),
            display_width(self@, self.tab_width()) <= usize::MAX ==> len == display_width(
                self@,
                self.tab_width(),
            ),
    {
        self.len
    }

    /// Whether the row takes no column at all.
    #[must_use]
    pub fn is_empty(&self) -> (empty: bool)
        requires
            self.wf(),
        ensures
            empty == (display_len(self@, self.tab_width()) == 0),
    {
        self.len == 0
    }

    fn char_count(&self, character: char) -> (count: usize)
        ensures
            count == count_of(self@, character),
    {
        count_char(self.string.as_str(), character)
    }

    fn update_len(&mut self)
        ensures
            final(self).wf(),
            final(self)@ == old(self)@,
            final(self).tab_width() == old(self).tab_width(),
    {
        let clusters = graphemes(self.string.as_str());
        let tabs = self.char_count('\t');
        assert(clusters.deep_view().len() == clusters.len());
        self.len = width_of(clusters.len(), tabs, self.tab_width);
    }
}

/// The columns of `clusters` clusters of which `tabs` are tabs `tab_width`
/// columns wide, as far as a `usize` can count them.
pub fn width_of(clusters: usize, tabs: usize, tab_width: usize) -> (width: usize)
    ensures
        width == saturated(columns(clusters as nat, tabs as nat, tab_width)),
{
    match tabs.checked_mul(tab_width.saturating_sub(1)) {
        Some(more) => clusters.saturating_add(more),
        None => usize::MAX,
    }
}

/// How often `character` stands in `text`.
pub fn count_char(text: &str, character: char) -> (count: usize)
    ensures
        count == count_of(text@, character),
{
    let total = text.unicode_len();
    let mut count: usize = 0;
    proof {
        assert(text@.take(0) == Seq::<char>::empty());
        lemma_count_empty(character);
    }
    for c in it: text.chars()
        invariant
            it.seq() == text@,
            total == text@.len(),
            count <= it.index(),
            count == count_of(text@.take(it.index()), character),
    {
        proof {
            let i = it.index();
            assert(text@.take(i + 1) == text@.take(i).push(c));
            lemma_count_push(text@.take(i), c, character);
        }
        if c == character {
            count += 1;
        }
    }
    proof {
        assert(text@.take(text@.len() as int) == text@);
    }
    count
}

/// The columns that `cluster` takes, or `None` where no `usize` holds them.
pub fn width_of_cluster(cluster: &str, tab_width: usize) -> (width: Option<usize>)
    ensures
        match width {
            Some(w) => w == cluster_width(cluster@, tab_width),
            None => cluster_width(cluster@, tab_width) > usize::MAX,
        },
{
    let tabs = count_char(cluster, '\t');
    let more = tab_width.saturating_sub(1);
    match tabs.checked_mul(more) {
        Some(columns) => columns.checked_add(1),
        None => None,
    }
}

/// What shows in the columns `start..end` of `clusters`, each tab as
/// `tab_width` spaces and a tab that the range cuts as those of its spaces
/// that lie in the range.
pub fn render_clusters(clusters: &Vec<String>, start: usize, end: usize, tab_width: usize) -> (out:
    String)
    ensures
        out@ == shown(clusters.deep_view(), start as int, end as int, tab_width),
{
    let ghost all = clusters.deep_view();
    let mut out = String::new();
    let mut column: usize = 0;
    let mut i: usize = 0;
    while i < clusters.len() && column < end
        invariant_except_break
            column == column_of(all, i as int, tab_width),
        invariant
            i <= clusters.len(),
            all == clusters.deep_view(),
            out@ == shown_upto(all, i as int, start as int, end as int, tab_width),
        ensures
            i <= clusters.len(),
            i < clusters.len() ==> column_of(all, i as int, tab_width) >= end,
            out@ == shown_upto(all, i as int, start as int, end as int, tab_width),
        decreases clusters.len() - i,
    {
        let cluster = clusters[i].as_str();
        assert(all[i as int] == cluster@);
        let behind = match width_of_cluster(cluster, tab_width) {
            Some(width) => column.checked_add(width),
            None => None,
        };
        if is_tab(cluster) {
            let low = if start < column { column } else { start };
            let high = match behind {
                Some(b) => if end < b { end } else { b },
                None => end,
            };
            if low < high {
                push_spaces(&mut out, high - low);
            } else {
                assert(out@ + spaces(0) == out@);
            }
        } else if start <= column {
            out.append(cluster);
        } else {
            assert(out@ + Seq::<char>::empty() == out@);
        }
        i += 1;
        match behind {
            Some(b) => {
                column = b;
            },
            None => {
                break;
            },
        }
    }
    proof {
        lemma_shown_ends(all, i as int, start as int, end as int, tab_width);
    }
    out
}

/// The cluster boundary that stands for `column`: the index of the first of
/// `clusters` that starts at or behind it, or their number where they end
/// there. `None` for a column past their end.
pub fn boundary_of(clusters: &Vec<String>, column: usize, tab_width: usize) -> (index: Option<
    usize,
>)
    ensures
        match index {
            Some(i) => boundary_at(clusters.deep_view(), column as int, tab_width) == Some(
                i as int,
            ),
            None => boundary_at(clusters.deep_view(), column as int, tab_width) is None,
        },
{
    let ghost all = clusters.deep_view();
    let mut at: usize = 0;
    let mut i: usize = 0;
    while i < clusters.len()
        invariant
            i <= clusters.len(),
            all == clusters.deep_view(),
            at == column_of(all, i as int, tab_width),
            forall|k: int| 0 <= k < i ==> column_of(all, k, tab_width) < column,
        decreases clusters.len() - i,
    {
        if at >= column {
            proof {
                lemma_boundary_at(all, column as int, i as int, tab_width);
            }
            return Some(i);
        }
        assert(all[i as int] == clusters[i as int]@);
        let behind = match width_of_cluster(clusters[i].as_str(), tab_width) {
            Some(width) => at.checked_add(width),
            None => None,
        };
        i += 1;
        match behind {
            Some(b) => {
                at = b;
            },
            None => {
                proof {
                    lemma_boundary_at(all, column as int, i as int, tab_width);
                }
                return Some(i);
            },
        }
    }
    if at >= column {
        proof {
            lemma_boundary_at(all, column as int, i as int, tab_width);
        }
        Some(i)
    } else {
        proof {
            assert forall|k: int| !is_boundary_at(all, column as int, k, tab_width) by {
                if 0 <= k <= all.len() {
                    lemma_column_of_grows(all, k, all.len() as int, tab_width);
                }
            }
        }
        None
    }
}

/// The column at which cluster `index` of `clusters` starts, as far as a
/// `usize` can count.
pub fn column_of_cluster(clusters: &Vec<String>, index: usize, tab_width: usize) -> (column: usize)
    requires
        index <= clusters.len(),
    ensures
        column == saturated(column_of(clusters.deep_view(), index as int, tab_width)),
{
    let ghost all = clusters.deep_view();
    let mut column: usize = 0;
    let mut i: usize = 0;
    while i < index
        invariant
            i <= index <= clusters.len(),
            all == clusters.deep_view(),
            column == column_of(all, i as int, tab_width),
        decreases index - i,
    {
        assert(all[i as int] == clusters[i as int]@);
        let behind = match width_of_cluster(clusters[i].as_str(), tab_width) {
            Some(width) => column.checked_add(width),
            None => None,
        };
        i += 1;
        match behind {
            Some(b) => {
                column = b;
            },
            None => {
                proof {
                    lemma_column_of_grows(all, i as int, index as int, tab_width);
                }
                return usize::MAX;
            },
        }
    }
    column
}

/// The clusters `from..to`, end to end.
pub fn join_clusters(clusters: &Vec<String>, from: usize, to: usize) -> (text: String)
    requires
        from <= to <= clusters.len(),
    ensures
        text@ == clusters.deep_view().subrange(from as int, to as int).flatten(),
{
    let ghost all = clusters.deep_view();
    let mut text = String::new();
    let mut i = from;
    assert(all.subrange(from as int, from as int) == Seq::<Seq<char>>::empty());
    while i < to
        invariant
            from <= i <= to <= clusters.len(),
            all == clusters.deep_view(),
            text@ == all.subrange(from as int, i as int).flatten(),
        decreases to - i,
    {
        proof {
            assert(all[i as int] == clusters[i as int]@);
            assert(all.subrange(from as int, i + 1) == all.subrange(from as int, i as int).push(
                all[i as int],
            ));
            all.subrange(from as int, i as int).lemma_flatten_push(all[i as int]);
        }
        text.append(clusters[i].as_str());
        i += 1;
    }
    text
}

/// The cluster that starts at character `offset`, if one of these clusters,
/// none of which is empty, does.
pub fn cluster_starting_at(clusters: &Vec<String>, offset: usize) -> (index: Option<usize>)
    requires
        forall|i: int| 0 <= i < clusters.len() ==> (#[trigger] clusters.deep_view()[i]).len() > 0,
    ensures
        match index {
            Some(i) => cluster_at(clusters.deep_view(), offset as int) == Some(i as int),
            None => cluster_at(clusters.deep_view(), offset as int) is None,
        },
{
    let ghost all = clusters.deep_view();
    let mut start: usize = 0;
    let mut i: usize = 0;
    proof {
        assert(all.take(0) == Seq::<Seq<char>>::empty());
    }
    while i < clusters.len()
        invariant
            i <= clusters.len(),
            all == clusters.deep_view(),
            forall|k: int| 0 <= k < all.len() ==> (#[trigger] all[k]).len() > 0,
            start == cluster_start(all, i as int),
            forall|k: int| 0 <= k < i ==> cluster_start(all, k) != offset,
        decreases clusters.len() - i,
    {
        if start == offset {
            proof {
                lemma_cluster_at(all, offset as int, i as int);
            }
            return Some(i);
        }
        if start > offset {
            proof {
                assert forall|k: int| i <= k < all.len() implies cluster_start(all, k)
                    != offset by {
                    lemma_cluster_start_grows(all, i as int, k);
                }
            }
            return None;
        }
        proof {
            lemma_take_flatten_step(all, i as int);
            assert(all[i as int] == clusters[i as int]@);
        }
        match start.checked_add(clusters[i].as_str().unicode_len()) {
            Some(next) => {
                start = next;
            },
            None => {
                proof {
                    assert forall|k: int| i < k < all.len() implies cluster_start(all, k)
                        != offset by {
                        lemma_cluster_start_grows(all, i + 1, k);
                    }
                }
                return None;
            },
        }
        i += 1;
    }
    None
}

/// Whether `cluster` is a tab.
fn is_tab(cluster: &str) -> (tab: bool)
    ensures
        tab == (cluster@ == seq!['\t']),
{
    if cluster.unicode_len() == 1 {
        let tab = cluster.get_char(0) == '\t';
        proof {
            if tab {
                assert(cluster@ == seq!['\t']);
            } else {
                assert(seq!['\t'][0] == '\t');
            }
        }
        tab
    } else {
        assert(seq!['\t'].len() == 1);
        false
    }
}

/// Puts `count` spaces at the end of `out`.
pub(crate) fn push_spaces(out: &mut String, count: usize)
    ensures
        final(out)@ == old(out)@ + spaces(count as nat),
{
    let mut done: usize = 0;
    assert(out@ == old(out)@ + spaces(0));
    while done < count
        invariant
            done <= count,
            out@ == old(out)@ + spaces(done as nat),
        decreases count - done,
    {
        out.push(' ');
        done += 1;
        assert(out@ == old(out)@ + spaces(done as nat));
    }
}

/// The characters of `s`.
pub(crate) fn chars_of(s: &str) -> (chars: Vec<char>)
    ensures
        chars@ == s@,
{
    let mut chars: Vec<char> = Vec::new();
    for c in it: s.chars()
        invariant
            it.seq() == s@,
            chars@ == s@.take(it.index()),
    {
        chars.push(c);
    }
    chars
}

/// Whether `needle` stands in `text` from `offset` on.
fn matches_at(text: &Vec<char>, needle: &Vec<char>, offset: usize) -> (matches: bool)
    requires
        offset + needle.len() <= text.len(),
    ensures
        matches == occurs_at(text@, needle@, offset as int),
{
    let mut k: usize = 0;
    while k < needle.len()
        invariant
            k <= needle.len(),
            offset + needle.len() <= text.len(),
            forall|j: int| 0 <= j < k ==> text[offset + j] == needle[j],
        decreases needle.len() - k,
    {
        if text[offset + k] != needle[k] {
            proof {
                let part = text@.subrange(offset as int, offset + needle.len());
                assert(part[k as int] != needle@[k as int]);
            }
            return false;
        }
        k += 1;
    }
    assert(text@.subrange(offset as int, offset + needle.len()) == needle@);
    true
}

/// The first place in `text` where `needle` stands.
pub fn first_match(text: &Vec<char>, needle: &Vec<char>) -> (offset: Option<usize>)
    ensures
        match offset {
            Some(i) => first_occurrence(text@, needle@) == Some(i as int),
            None => first_occurrence(text@, needle@) is None,
        },
{
    if needle.len() > text.len() {
        return None;
    }
    let last = text.len() - needle.len();
    let mut i: usize = 0;
    while i < last
        invariant
            i <= last,
            last == text.len() - needle.len(),
            forall|j: int| 0 <= j < i ==> !occurs_at(text@, needle@, j),
        decreases last - i,
    {
        if matches_at(text, needle, i) {
            proof {
                lemma_first_occurrence(text@, needle@, i as int);
            }
            return Some(i);
        }
        i += 1;
    }
    if matches_at(text, needle, last) {
        proof {
            lemma_first_occurrence(text@, needle@, last as int);
        }
        Some(last)
    } else {
        None
    }
}

/// A later boundary stands at a later column: each cluster takes a column
/// at least.
pub proof fn lemma_column_of_grows(clusters: Seq<Seq<char>>, i: int, j: int, tab_width: usize)
    requires
        0 <= i <= j,
    ensures
        column_of(clusters, i, tab_width) + (j - i) <= column_of(clusters, j, tab_width),
    decreases j - i,
{
    if i < j {
        lemma_column_of_grows(clusters, i, j - 1, tab_width);
    }
}

/// A first boundary at or behind a column is the only one that `boundary_at`
/// can name.
pub proof fn lemma_boundary_at(clusters: Seq<Seq<char>>, column: int, index: int, tab_width: usize)
    requires
        is_boundary_at(clusters, column, index, tab_width),
    ensures
        boundary_at(clusters, column, tab_width) == Some(index),
{
    let chosen = choose|i: int| is_boundary_at(clusters, column, i, tab_width);
    if chosen < index {
        assert(column_of(clusters, chosen, tab_width) < column);
    } else if index < chosen {
        assert(column_of(clusters, index, tab_width) < column);
    }
}

/// Clusters that start at or behind the end of the range show nothing of
/// themselves.
proof fn lemma_shown_ends(
    clusters: Seq<Seq<char>>,
    from: int,
    start: int,
    end: int,
    tab_width: usize,
)
    requires
        0 <= from <= clusters.len(),
        from < clusters.len() ==> column_of(clusters, from, tab_width) >= end,
    ensures
        shown(clusters, start, end, tab_width) == shown_upto(clusters, from, start, end, tab_width),
{
    lemma_shown_rest(clusters, from, clusters.len() as int, start, end, tab_width);
}

proof fn lemma_shown_rest(
    clusters: Seq<Seq<char>>,
    from: int,
    to: int,
    start: int,
    end: int,
    tab_width: usize,
)
    requires
        0 <= from <= to,
        from < to ==> column_of(clusters, from, tab_width) >= end,
    ensures
        shown_upto(clusters, to, start, end, tab_width) == shown_upto(
            clusters,
            from,
            start,
            end,
            tab_width,
        ),
    decreases to - from,
{
    if from < to {
        lemma_shown_rest(clusters, from, to - 1, start, end, tab_width);
        lemma_column_of_grows(clusters, from, to - 1, tab_width);
        let last = piece(
            clusters[to - 1],
            column_of(clusters, to - 1, tab_width) as int,
            start,
            end,
            tab_width,
        );
        assert(last == Seq::<char>::empty());
    }
}

/// The column of a boundary is told by its index and the tabs before it.
pub proof fn lemma_column_of_text(clusters: Seq<Seq<char>>, index: int, tab_width: usize)
    requires
        0 <= index <= clusters.len(),
    ensures
        column_of(clusters, index, tab_width) == columns(
            index as nat,
            tab_count(clusters.take(index).flatten()),
            tab_width,
        ),
    decreases index,
{
    if index <= 0 {
        assert(clusters.take(0) == Seq::<Seq<char>>::empty());
        lemma_count_empty('\t');
        let more = tab_width.saturating_sub(1) as nat;
        assert(0 * more == 0) by (nonlinear_arith);
    } else {
        lemma_column_of_text(clusters, index - 1, tab_width);
        lemma_take_flatten_step(clusters, index - 1);
        let head = clusters.take(index - 1).flatten();
        let last = clusters[index - 1];
        lemma_count_add(head, last, '\t');
        let more = tab_width.saturating_sub(1) as nat;
        let before = tab_count(head);
        let here = tab_count(last);
        assert((before + here) * more == before * more + here * more) by (nonlinear_arith);
        assert(tab_count(clusters.take(index).flatten()) == before + here);
        assert(column_of(clusters, index, tab_width) == column_of(clusters, index - 1, tab_width)
            + cluster_width(last, tab_width));
    }
}

/// A text is as wide as the column behind its last cluster.
pub proof fn lemma_width_is_last_column(text: Seq<char>, tab_width: usize)
    requires
        segmented(text),
    ensures
        display_width(text, tab_width) == column_of(
            grapheme_clusters(text),
            grapheme_clusters(text).len() as int,
            tab_width,
        ),
{
    let clusters = grapheme_clusters(text);
    lemma_column_of_text(clusters, clusters.len() as int, tab_width);
    assert(clusters.take(clusters.len() as int) == clusters);
}

/// A row without tabs is as wide as its clusters are many; where each cluster
/// is a single character, as wide as its text is long.
pub proof fn lemma_len_without_tabs(row: Row)
    requires
        row.wf(),
        tab_count(row@) == 0,
    ensures
        row.len() == grapheme_clusters(row@).len(),
        (forall|i: int|
            0 <= i < grapheme_clusters(row@).len() ==> (#[trigger] grapheme_clusters(
                row@,
            )[i]).len() == 1) ==> row.len() == row@.len(),
{
    row.lemma_wf();
    if forall|i: int|
        0 <= i < grapheme_clusters(row@).len() ==> (#[trigger] grapheme_clusters(row@)[i]).len()
            == 1 {
        lemma_single_characters(grapheme_clusters(row@));
    }
}

/// A row is as wide as its clusters are many, and one column less than a
/// tab's width wider for each tab, as long as a `usize` can hold that number.
pub proof fn lemma_len_with_tabs(row: Row, tabs: nat)
    requires
        row.wf(),
        row.tab_width() >= 1,
        tab_count(row@) == tabs,
        grapheme_clusters(row@).len() + tabs * (row.tab_width() - 1) <= usize::MAX,
    ensures
        row.len() == grapheme_clusters(row@).len() + tabs * (row.tab_width() - 1),
{
    row.lemma_wf();
}

/// Clusters of one character each are as many as their characters.
proof fn lemma_single_characters(clusters: Seq<Seq<char>>)
    requires
        forall|i: int| 0 <= i < clusters.len() ==> (#[trigger] clusters[i]).len() == 1,
    ensures
        clusters.flatten().len() == clusters.len(),
    decreases clusters.len(),
{
    if clusters.len() > 0 {
        let n = clusters.len() as int;
        assert(clusters.take(n) == clusters);
        lemma_take_flatten_step(clusters, n - 1);
        let head = clusters.take(n - 1);
        assert forall|i: int| 0 <= i < head.len() implies (#[trigger] head[i]).len() == 1 by {
            assert(head[i] == clusters[i]);
        }
        lemma_single_characters(head);
    }
}

/// Nothing stands in an empty text.
pub proof fn lemma_count_empty(c: char)
    ensures
        count_of(Seq::<char>::empty(), c) == 0,
{
    Seq::<char>::empty().lemma_filter_len(is_char(c));
}

/// What stands in two texts stands as often in both together.
pub proof fn lemma_count_add(a: Seq<char>, b: Seq<char>, c: char)
    ensures
        count_of(a + b, c) == count_of(a, c) + count_of(b, c),
{
    Seq::filter_distributes_over_add(a, b, is_char(c));
}

/// One more character counts once where it is the one looked for.
pub proof fn lemma_count_push(text: Seq<char>, x: char, c: char)
    ensures
        count_of(text.push(x), c) == count_of(text, c) + if x == c { 1nat } else { 0nat },
{
    text.lemma_filter_push(x, is_char(c));
}

/// Where `query` is found in `text`, it stands there, at the start of that
/// cluster, and nowhere before.
pub proof fn lemma_found_is_leftmost(text: Seq<char>, query: Seq<char>)
    ensures
        found(text, query) matches Some(index) ==> {
            &&& 0 <= index < grapheme_clusters(text).len()
            &&& is_first_occurrence(text, query, cluster_start(grapheme_clusters(text), index))
        },
{
}

/// A first occurrence is the only one that `first_occurrence` can name.
pub proof fn lemma_first_occurrence(text: Seq<char>, query: Seq<char>, offset: int)
    requires
        is_first_occurrence(text, query, offset),
    ensures
        first_occurrence(text, query) == Some(offset),
{
    let chosen = choose|o: int| is_first_occurrence(text, query, o);
    assert(is_first_occurrence(text, query, chosen));
    if chosen < offset {
        assert(!occurs_at(text, query, chosen));
    } else if offset < chosen {
        assert(!occurs_at(text, query, offset));
    }
}

/// Among clusters none of which is empty, one that starts at `offset` is the
/// only one that `cluster_at` can name.
pub proof fn lemma_cluster_at(clusters: Seq<Seq<char>>, offset: int, index: int)
    requires
        forall|k: int| 0 <= k < clusters.len() ==> (#[trigger] clusters[k]).len() > 0,
        0 <= index < clusters.len(),
        cluster_start(clusters, index) == offset,
    ensures
        cluster_at(clusters, offset) == Some(index),
{
    let chosen = choose|i: int| 0 <= i < clusters.len() && cluster_start(clusters, i) == offset;
    if chosen < index {
        lemma_cluster_start_grows(clusters, chosen, index);
    } else if index < chosen {
        lemma_cluster_start_grows(clusters, index, chosen);
    }
}

} // verus!
