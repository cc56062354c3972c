//! The document: rows of text, top to bottom, and the edits that keep them
//! whole.

use crate::editor::{Position, TAB_WIDTH};
use crate::grapheme::{
    cluster_start, grapheme_clusters, lemma_take_flatten_step, lemma_take_skip_flatten, segmented,
};
use crate::row::{
    boundary_at, chars_of, cluster_width, column_of, display_len, found, halves, is_boundary_at,
    lemma_boundary_at, lemma_column_of_grows, lemma_column_of_text, lemma_found_is_leftmost,
    lemma_width_is_last_column, saturated, with_inserted, without, Row,
};
use vstd::prelude::*;
use vstd::seq_lib::lemma_flatten_concat;
use vstd::string::*;

verus! {

/// The rows after a character is typed at `at`: a new last row holding `c`
/// where `at` is the line below the last one; else `c` goes to the end of row
/// `at.y` where `at.x` is the row's width, and elsewhere in front of the
/// cluster that starts at column `at.x`, or behind the tab that the column
/// lies in. A position further out changes nothing.
pub open spec fn after_insert(rows: Seq<Seq<char>>, at: Position, c: char, tab_width: usize) -> Seq<
    Seq<char>,
> {
    if at.y == rows.len() {
        rows.push(seq![c])
    } else if at.y < rows.len() {
        let text = rows[at.y as int];
        if at.x == display_len(text, tab_width) {
            rows.update(at.y as int, text.push(c))
        } else {
            match boundary_at(grapheme_clusters(text), at.x as int, tab_width) {
                Some(index) => rows.update(at.y as int, with_inserted(text, index, c)),
                None => rows,
            }
        }
    } else {
        rows
    }
}

/// The rows after a line break at `at`: row `at.y` is cut at column `at.x`,
/// and its second part becomes the row below. Below the last row, two empty
/// rows come at the end.
pub open spec fn after_newline(rows: Seq<Seq<char>>, at: Position, tab_width: usize) -> Seq<
    Seq<char>,
> {
    if at.y >= rows.len() {
        rows.push(Seq::empty()).push(Seq::empty())
    } else {
        let parts = halves(rows[at.y as int], at.x as int, tab_width);
        rows.update(at.y as int, parts.0).insert(at.y + 1, parts.1)
    }
}

/// The rows after a backspace at `at`: away from column 0 the cluster that
/// ends at column `at.x` goes, or the tab that the column lies in; at column
/// 0 the row moves to the end of the row above. At the start of the
/// document, and off the rows, nothing changes.
pub open spec fn after_delete_backward(rows: Seq<Seq<char>>, at: Position, tab_width: usize) -> Seq<
    Seq<char>,
> {
    if at.x != 0 {
        if at.y < rows.len() {
            let text = rows[at.y as int];
            match boundary_at(grapheme_clusters(text), at.x as int, tab_width) {
                Some(index) => rows.update(at.y as int, without(text, index - 1)),
                None => rows,
            }
        } else {
            rows
        }
    } else if 0 < at.y < rows.len() {
        rows.update(at.y - 1, rows[at.y - 1] + rows[at.y as int]).remove(at.y as int)
    } else {
        rows
    }
}

/// The rows after a delete at `at`: before the end of the row the cluster
/// that starts at column `at.x` goes, or the one behind the tab that the
/// column lies in; at the end of the row the row below moves up to it. At
/// the end of the document, and off the rows, nothing changes.
pub open spec fn after_delete_forward(rows: Seq<Seq<char>>, at: Position, tab_width: usize) -> Seq<
    Seq<char>,
> {
    if at.y < rows.len() {
        let text = rows[at.y as int];
        if at.x != display_len(text, tab_width) {
            match boundary_at(grapheme_clusters(text), at.x as int, tab_width) {
                Some(index) => rows.update(at.y as int, without(text, index)),
                None => rows,
            }
        } else if at.y + 1 < rows.len() {
            rows.update(at.y as int, text + rows[at.y + 1]).remove(at.y + 1)
        } else {
            rows
        }
    } else {
        rows
    }
}

/// The column of the cluster boundary that `at` stands for: the first in
/// row `at.y` at or behind column `at.x`. Where there is none, `at.x`.
pub open spec fn snapped(rows: Seq<Seq<char>>, at: Position, tab_width: usize) -> usize {
    if at.y < rows.len() {
        let clusters = grapheme_clusters(rows[at.y as int]);
        match boundary_at(clusters, at.x as int, tab_width) {
            Some(index) => saturated(column_of(clusters, index, tab_width)),
            None => at.x,
        }
    } else {
        at.x
    }
}

/// The column at which the cluster starts that a backspace at `at` deletes.
/// Where it deletes none, one column back.
pub open spec fn column_before(rows: Seq<Seq<char>>, at: Position, tab_width: usize) -> usize {
    if at.x != 0 && at.y < rows.len() {
        let clusters = grapheme_clusters(rows[at.y as int]);
        match boundary_at(clusters, at.x as int, tab_width) {
            Some(index) => saturated(column_of(clusters, index - 1, tab_width)),
            None => (at.x - 1) as usize,
        }
    } else {
        at.x.saturating_sub(1)
    }
}

/// Row `y` is the first that holds `query`.
pub open spec fn is_first_row_with(rows: Seq<Seq<char>>, query: Seq<char>, y: int) -> bool {
    &&& 0 <= y < rows.len()
    &&& found(rows[y], query) is Some
    &&& forall|above: int| 0 <= above < y ==> found(rows[above], query) is None
}

/// Where `query` is found in the rows: in the first row that holds it, at the
/// column of the cluster where it is found in that row.
pub open spec fn found_in(rows: Seq<Seq<char>>, query: Seq<char>, tab_width: usize) -> Option<
    Position,
> {
    if exists|y: int| is_first_row_with(rows, query, y) {
        let y = choose|y: int| is_first_row_with(rows, query, y);
        Some(found_at(rows, query, y, tab_width))
    } else {
        None
    }
}

/// The place in row `y` where `query` is found in it.
pub open spec fn found_at(
    rows: Seq<Seq<char>>,
    query: Seq<char>,
    y: int,
    tab_width: usize,
) -> Position {
    Position {
        x: saturated(
            column_of(grapheme_clusters(rows[y]), found(rows[y], query)->0, tab_width),
        ),
        y: y as usize,
    }
}

/// The end of the first line of `text`: where its first line feed stands, or
/// its length where it has none.
pub open spec fn line_end(text: Seq<char>) -> int {
    if exists|i: int| is_line_end(text, i) {
        choose|i: int| is_line_end(text, i)
    } else {
        text.len() as int
    }
}

/// The first line feed of `text` stands at `i`.
pub open spec fn is_line_end(text: Seq<char>, i: int) -> bool {
    &&& 0 <= i < text.len()
    &&& text[i] == '\n'
    &&& forall|j: int| 0 <= j < i ==> text[j] != '\n'
}

/// `line` without the carriage return at its end, if it has one.
pub open spec fn without_cr(line: Seq<char>) -> Seq<char> {
    if line.len() > 0 && line.last() == '\r' {
        line.drop_last()
    } else {
        line
    }
}

/// The lines of `text`. A line ends at a line feed, which is no part of it,
/// nor is a carriage return just before the line feed. What follows the last
/// line feed is a line if it is not empty.
pub open spec fn lines_of(text: Seq<char>) -> Seq<Seq<char>>
    decreases text.len(),
{
    if text.len() == 0 {
        Seq::empty()
    } else if line_end(text) < text.len() {
        seq![without_cr(text.take(line_end(text)))] + lines_of(text.skip(line_end(text) + 1))
    } else {
        seq![text]
    }
}

/// The text of a file that holds `rows`: each row, then a line feed.
pub open spec fn text_of(rows: Seq<Seq<char>>) -> Seq<char> {
    rows.map_values(|row: Seq<char>| row.push('\n')).flatten()
}

/// What a document is: its rows, the name of its file, whether it has
/// changes that the file has not, and how many columns a tab takes in it.
pub struct DocumentView {
    pub rows: Seq<Seq<char>>,
    pub filename: Option<Seq<char>>,
    pub dirty: bool,
    pub tab_width: usize,
}

/// The rows of a text file, with the edits made since it was read.
pub struct Document {
    rows: Vec<Row>,
    filename: Option<String>,
    dirty: bool,
    tab_width: usize,
}

impl View for Document {
    type V = DocumentView;

    closed spec fn view(&self) -> DocumentView {
        DocumentView {
            rows: self.rows@.map_values(|row: Row| row@),
            filename: match self.filename {
                Some(name) => Some(name@),
                None => None,
            },
            dirty: self.dirty,
            tab_width: self.tab_width,
        }
    }
}

/// The document without rows, name or changes, in which a tab takes
/// `tab_width` columns.
pub open spec fn empty_document(tab_width: usize) -> DocumentView {
    DocumentView { rows: Seq::empty(), filename: None, dirty: false, tab_width }
}

impl Default for Document {
    /// The empty document, with tabs `TAB_WIDTH` columns wide.
    fn default() -> (document: Document)
        ensures
            document.wf(),
            document@ == empty_document(TAB_WIDTH as usize),
    {
        Document::with_tab_width(TAB_WIDTH as usize)
    }
}

impl Document {
    /// Every row is well formed, and a tab is as wide in it as in the
    /// document.
    pub closed spec fn wf(&self) -> bool {
        forall|i: int|
            0 <= i < self.rows@.len() ==> {
                &&& (#[trigger] self.rows@[i]).wf()
                &&& self.rows@[i].tab_width() == self.tab_width
            }
    }

    /// The clusters of each row of a document divide it, and its rows can be
    /// counted.
    pub proof fn lemma_wf(&self)
        requires
            self.wf(),
        ensures
            forall|y: int| 0 <= y < self@.rows.len() ==> segmented(#[trigger] self@.rows[y]),
            self@.rows.len() <= usize::MAX,
    {
        assert forall|y: int| 0 <= y < self@.rows.len() implies segmented(
            #[trigger] self@.rows[y],
        ) by {
            self.rows@[y].lemma_wf();
        }
        assert(self@.rows.len() == self.rows.len());
    }

    /// The empty document in which a tab takes `tab_width` columns.
    pub fn with_tab_width(tab_width: usize) -> (document: Document)
        ensures
            document.wf(),
            document@ == empty_document(tab_width),
    {
        let document = Document { rows: Vec::new(), filename: None, dirty: false, tab_width };
        assert(document@.rows == Seq::<Seq<char>>::empty());
        document
    }

    /// The document that the file `filename` holds, given the file's
    /// `contents`: one row for each line, with tabs `TAB_WIDTH` columns wide.
    pub fn open(filename: &str, contents: &str) -> (document: Document)
        ensures
            document.wf(),
            document@ == (DocumentView {
                rows: lines_of(contents@),
                filename: Some(filename@),
                dirty: false,
                tab_width: TAB_WIDTH as usize,
            }),
    {
        Document::open_with_tab_width(filename, contents, TAB_WIDTH as usize)
    }

    /// The document that the file `filename` holds, given the file's
    /// `contents`: one row for each line, with tabs `tab_width` columns wide.
    pub fn open_with_tab_width(filename: &str, contents: &str, tab_width: usize) -> (document:
        Document)
        ensures
            document.wf(),
            document@ == (DocumentView {
                rows: lines_of(contents@),
                filename: Some(filename@),
                dirty: false,
                tab_width,
            }),
    {
        let text = chars_of(contents);
        let mut rows: Vec<Row> = Vec::new();
        let mut start: usize = 0;
        let mut i: usize = 0;
        proof {
            assert(text@.skip(0) == text@);
        }
        while i < text.len()
            invariant
                start <= i <= text.len(),
                forall|j: int| start <= j < i ==> text[j] != '\n',
                forall|k: int|
                    0 <= k < rows@.len() ==> (#[trigger] rows@[k]).wf() && rows@[k].tab_width()
                        == tab_width,
                lines_of(text@) == rows@.map_values(|row: Row| row@) + lines_of(
                    text@.skip(start as int),
                ),
            decreases text.len() - i,
        {
            if text[i] == '\n' {
                let end = if start < i && text[i - 1] == '\r' { i - 1 } else { i };
                let line = string_of(&text, start, end);
                let row = Row::new(line.as_str(), tab_width);
                proof {
                    let rest = text@.skip(start as int);
                    assert(is_line_end(rest, i - start));
                    lemma_line_end(rest, i - start);
                    assert(rest.take(i - start) == text@.subrange(start as int, i as int));
                    assert(without_cr(rest.take(i - start)) == row@);
                    assert(rest.skip(i - start + 1) == text@.skip(i + 1));
                    assert(rows@.push(row).map_values(|row: Row| row@) == rows@.map_values(
                        |row: Row| row@,
                    ) + seq![row@]);
                }
                rows.push(row);
                start = i + 1;
            }
            i += 1;
        }
        if start < text.len() {
            let line = string_of(&text, start, text.len());
            let row = Row::new(line.as_str(), tab_width);
            proof {
                let rest = text@.skip(start as int);
                assert(rest == text@.subrange(start as int, text.len() as int));
                lemma_no_line_end(rest);
                assert(lines_of(rest) == seq![rest]);
                assert(rows@.push(row).map_values(|row: Row| row@) == rows@.map_values(
                    |row: Row| row@,
                ) + seq![row@]);
            }
            rows.push(row);
        } else {
            assert(text@.skip(start as int).len() == 0);
        }
        Document { rows, filename: Some(String::from_str(filename)), dirty: false, tab_width }
    }

    /// The text of the document's file: each row, then a line feed.
    pub fn text(&self) -> (text: String)
        ensures
            text@ == text_of(self@.rows),
    {
        let ghost rows = self@.rows;
        let mut text = String::new();
        let mut y: usize = 0;
        proof {
            assert(rows.take(0).map_values(|row: Seq<char>| row.push('\n')) == Seq::<
                Seq<char>,
            >::empty());
        }
        while y < self.rows.len()
            invariant
                y <= self.rows.len(),
                rows == self@.rows,
                rows.len() == self.rows.len(),
                text@ == text_of(rows.take(y as int)),
            decreases self.rows.len() - y,
        {
            proof {
                let line = |row: Seq<char>| row.push('\n');
                assert(rows.take(y + 1) == rows.take(y as int).push(rows[y as int]));
                assert(rows.take(y + 1).map_values(line) == rows.take(y as int).map_values(
                    line,
                ).push(rows[y as int].push('\n')));
                rows.take(y as int).map_values(line).lemma_flatten_push(rows[y as int].push('\n'));
                assert(rows[y as int] == self.rows[y as int]@);
            }
            let contents = self.rows[y].contents();
            text.append(contents.as_str());
            text.push('\n');
            y += 1;
        }
        proof {
            assert(rows.take(rows.len() as int) == rows);
        }
        text
    }

    /// Takes the document as written to its file: it has no changes that the
    /// file has not.
    pub fn saved(&mut self)
        requires
            old(self).wf(),
        ensures
            final(self).wf(),
            final(self)@ == (DocumentView { dirty: false, ..old(self)@ }),
    {
        self.dirty = false;
    }

    /// The name of the document's file, if it has one.
    pub fn filename(&self) -> (name: &Option<String>)
        ensures
            match *name {
                Some(n) => self@.filename == Some(n@),
                None => self@.filename is None,
            },
    {
        &self.filename
    }

    /// Gives the document the file `name`.
    pub fn set_filename(&mut self, name: String)
        requires
            old(self).wf(),
        ensures
            final(self).wf(),
            final(self)@ == (DocumentView { filename: Some(name@), ..old(self)@ }),
    {
        self.filename = Some(name);
    }

    /// Types `c` at `at`.
    pub fn insert(&mut self, at: &Position, c: char)
        requires
            old(self).wf(),
        ensures
            final(self).wf(),
            final(self)@ == (DocumentView {
                rows: after_insert(old(self)@.rows, *at, c, old(self)@.tab_width),
                dirty: true,
                ..old(self)@
            }),
    {
        if at.y == self.rows.len() {
            let mut row = Row::with_tab_width(self.tab_width);
            row.push(c);
            self.rows.push(row);
            assert(self@.rows == after_insert(old(self)@.rows, *at, c, self.tab_width));
        } else if at.y < self.rows.len() {
            if at.x == self.rows[at.y].len() {
                self.rows[at.y].push(c);
            } else if let Some(index) = self.rows[at.y].index_at(at.x) {
                self.rows[at.y].insert(index, c);
            }
            assert(self@.rows == after_insert(old(self)@.rows, *at, c, self.tab_width));
        }
        self.dirty = true;
    }

    /// Deletes what stands before `at`: a cluster, or at column 0 the line
    /// break.
    pub fn del_char_backward(&mut self, at: &Position)
        requires
            old(self).wf(),
        ensures
            final(self).wf(),
            final(self)@ == (DocumentView {
                rows: after_delete_backward(old(self)@.rows, *at, old(self)@.tab_width),
                dirty: true,
                ..old(self)@
            }),
            at.x == 0 && at.y == 0 ==> final(self)@.rows == old(self)@.rows,
    {
        if at.x != 0 {
            if at.y < self.rows.len() {
                if let Some(index) = self.rows[at.y].index_at(at.x) {
                    assert(index > 0) by {
                        let clusters = grapheme_clusters(self.rows[at.y as int]@);
                        assert(is_boundary_at(clusters, at.x as int, index as int, self.tab_width));
                    }
                    self.rows[at.y].delete(index - 1);
                }
                assert(self@.rows == after_delete_backward(old(self)@.rows, *at, self.tab_width));
            }
        } else if at.y > 0 && at.y < self.rows.len() {
            let contents = self.rows[at.y].contents();
            self.rows[at.y - 1].push_str(contents.as_str());
            self.rows.remove(at.y);
            assert(self@.rows == after_delete_backward(old(self)@.rows, *at, self.tab_width));
        }
        self.dirty = true;
    }

    /// Deletes what stands at `at`: a cluster, or at the end of the row the
    /// line break.
    pub fn del_char_forward(&mut self, at: &Position)
        requires
            old(self).wf(),
        ensures
            final(self).wf(),
            final(self)@ == (DocumentView {
                rows: after_delete_forward(old(self)@.rows, *at, old(self)@.tab_width),
                dirty: true,
                ..old(self)@
            }),
            at.y + 1 == old(self)@.rows.len() && at.x == display_len(
                old(self)@.rows[at.y as int],
                old(self)@.tab_width,
            ) ==> final(self)@.rows == old(self)@.rows,
    {
        if at.y < self.rows.len() {
            if at.x != self.rows[at.y].len() {
                if let Some(index) = self.rows[at.y].index_at(at.x) {
                    self.rows[at.y].delete(index);
                }
                assert(self@.rows == after_delete_forward(old(self)@.rows, *at, self.tab_width));
            } else if at.y < self.rows.len() - 1 {
                let contents = self.rows[at.y + 1].contents();
                self.rows[at.y].push_str(contents.as_str());
                self.rows.remove(at.y + 1);
                assert(self@.rows == after_delete_forward(old(self)@.rows, *at, self.tab_width));
            }
        }
        self.dirty = true;
    }

    /// Breaks the line at `at`.
    pub fn insert_newline(&mut self, at: &Position)
        requires
            old(self).wf(),
        ensures
            final(self).wf(),
            final(self)@ == (DocumentView {
                rows: after_newline(old(self)@.rows, *at, old(self)@.tab_width),
                dirty: true,
                ..old(self)@
            }),
    {
        if at.y >= self.rows.len() {
            self.rows.push(Row::with_tab_width(self.tab_width));
            self.rows.push(Row::with_tab_width(self.tab_width));
            assert(self@.rows == after_newline(old(self)@.rows, *at, self.tab_width));
        } else {
            let (left, right) = self.rows[at.y].split(at.x);
            self.rows[at.y] = left;
            self.rows.insert(at.y + 1, right);
            assert(self@.rows == after_newline(old(self)@.rows, *at, self.tab_width));
        }
        self.dirty = true;
    }

    /// The first place, top to bottom, where `query` is found: the row, and
    /// the column of the cluster at which the query begins.
    pub fn find(&self, query: &str) -> (position: Option<Position>)
        requires
            self.wf(),
        ensures
            position == found_in(self@.rows, query@, self@.tab_width),
    {
        let mut y: usize = 0;
        while y < self.rows.len()
            invariant
                self.wf(),
                y <= self.rows.len(),
                forall|above: int| 0 <= above < y ==> found(self@.rows[above], query@) is None,
            decreases self.rows.len() - y,
        {
            if let Some(index) = self.rows[y].find(query) {
                let x = self.rows[y].column_at(index);
                proof {
                    assert(self.rows[y as int]@ == self@.rows[y as int]);
                    lemma_found_is_leftmost(self@.rows[y as int], query@);
                    lemma_found_in(self@.rows, query@, y as int, self.tab_width);
                    assert(is_first_row_with(self@.rows, query@, y as int));
                    assert(Position { x, y } == found_at(
                        self@.rows,
                        query@,
                        y as int,
                        self.tab_width,
                    ));
                }
                return Some(Position { x, y });
            }
            y += 1;
        }
        None
    }

    /// The column of the cluster boundary that `at` stands for.
    pub fn snap(&self, at: &Position) -> (column: usize)
        requires
            self.wf(),
        ensures
            column == snapped(self@.rows, *at, self@.tab_width),
    {
        if at.y < self.rows.len() {
            match self.rows[at.y].index_at(at.x) {
                Some(index) => {
                    proof {
                        let clusters = grapheme_clusters(self.rows[at.y as int]@);
                        assert(is_boundary_at(clusters, at.x as int, index as int, self.tab_width));
                    }
                    self.rows[at.y].column_at(index)
                },
                None => at.x,
            }
        } else {
            at.x
        }
    }

    /// The column at which the cluster starts that a backspace at `at`
    /// deletes; where it deletes none, one column back.
    pub fn column_before(&self, at: &Position) -> (column: usize)
        requires
            self.wf(),
        ensures
            column == column_before(self@.rows, *at, self@.tab_width),
    {
        if at.x != 0 && at.y < self.rows.len() {
            match self.rows[at.y].index_at(at.x) {
                Some(index) => {
                    proof {
                        let clusters = grapheme_clusters(self.rows[at.y as int]@);
                        assert(is_boundary_at(clusters, at.x as int, index as int, self.tab_width));
                    }
                    self.rows[at.y].column_at(index - 1)
                },
                None => at.x - 1,
            }
        } else {
            at.x.saturating_sub(1)
        }
    }

    /// Row `index`, if the document has one.
    #[must_use]
    pub fn row(&self, index: usize) -> (row: Option<&Row>)
        requires
            self.wf(),
        ensures
            row is Some <==> index < self@.rows.len(),
            row matches Some(r) ==> r.wf() && r@ == self@.rows[index as int] && r.tab_width()
                == self@.tab_width,
    {
        if index < self.rows.len() {
            Some(&self.rows[index])
        } else {
            None
        }
    }

    /// Whether the document has no row.
    #[must_use]
    pub fn is_empty(&self) -> (empty: bool)
        ensures
            empty == (self@.rows.len() == 0),
    {
        self.rows.len() == 0
    }

    /// The number of rows.
    #[must_use]
    pub fn len(&self) -> (len: usize)
        ensures
            len == self@.rows.len(),
    {
        self.rows.len()
    }

    /// The columns that a tab takes in the document.
    pub fn tab_width(&self) -> (tab_width: usize)
        ensures
            tab_width == self@.tab_width,
    {
        self.tab_width
    }

    /// Whether the document has changes that its file has not.
    #[must_use]
    pub fn is_dirty(&self) -> (dirty: bool)
        ensures
            dirty == self@.dirty,
    {
        self.dirty
    }
}

/// In `after`, cluster `index` is the character `c` alone, and it starts where
/// cluster `index` of `before` starts.
pub open spec fn alone_at(before: Seq<char>, after: Seq<char>, index: int, c: char) -> bool {
    let clusters = grapheme_clusters(after);
    &&& 0 <= index < clusters.len()
    &&& clusters[index] == seq![c]
    &&& cluster_start(clusters, index) == cluster_start(grapheme_clusters(before), index)
}

/// Typing a character where a cluster starts, or at the end of a row, and
/// then deleting backward from behind it gives the rows back, where the
/// character stays a cluster of its own. (One that joins the cluster before
/// it, as a combining accent does, leaves no such cluster to delete.)
pub proof fn lemma_insert_then_delete_backward(
    rows: Seq<Seq<char>>,
    at: Position,
    index: int,
    c: char,
    tab_width: usize,
)
    requires
        at.y < rows.len(),
        0 <= index <= grapheme_clusters(rows[at.y as int]).len(),
        at.x == column_of(grapheme_clusters(rows[at.y as int]), index, tab_width),
        at.x + cluster_width(seq![c], tab_width) <= usize::MAX,
        segmented(rows[at.y as int]),
        segmented(after_insert(rows, at, c, tab_width)[at.y as int]),
        alone_at(rows[at.y as int], after_insert(rows, at, c, tab_width)[at.y as int], index, c),
    ensures
        after_delete_backward(
            after_insert(rows, at, c, tab_width),
            Position { x: (at.x + cluster_width(seq![c], tab_width)) as usize, y: at.y },
            tab_width,
        ) == rows,
{
    let y = at.y as int;
    let x = at.x as int;
    let text = rows[y];
    let old_clusters = grapheme_clusters(text);
    let typed = after_insert(rows, at, c, tab_width)[y];
    let new_clusters = grapheme_clusters(typed);
    let head = old_clusters.take(index).flatten();
    let tail = old_clusters.skip(index).flatten();
    let width = cluster_width(seq![c], tab_width);
    lemma_take_skip_flatten(old_clusters, index);
    assert(boundary_at(old_clusters, x, tab_width) == Some(index)) by {
        assert forall|before: int| 0 <= before < index implies column_of(
            old_clusters,
            before,
            tab_width,
        ) < x by {
            lemma_column_of_grows(old_clusters, before, index, tab_width);
        }
        lemma_boundary_at(old_clusters, x, index, tab_width);
    }
    assert(typed == head + seq![c] + tail) by {
        if at.x == display_len(text, tab_width) {
            lemma_width_is_last_column(text, tab_width);
            lemma_column_of_grows(old_clusters, index, old_clusters.len() as int, tab_width);
            assert(old_clusters.take(index) == old_clusters);
        }
    }
    let new_head = new_clusters.take(index).flatten();
    let new_tail = new_clusters.skip(index + 1).flatten();
    assert(typed == new_head + seq![c] + new_tail) by {
        lemma_take_skip_flatten(new_clusters, index + 1);
        lemma_take_flatten_step(new_clusters, index);
    }
    assert(new_head == head) by {
        assert(new_head == typed.subrange(0, head.len() as int));
        assert(head == typed.subrange(0, head.len() as int));
    }
    assert(new_tail == tail) by {
        assert(new_tail == typed.subrange(head.len() as int + 1, typed.len() as int));
        assert(tail == typed.subrange(head.len() as int + 1, typed.len() as int));
    }
    assert(column_of(new_clusters, index, tab_width) == x) by {
        lemma_column_of_text(new_clusters, index, tab_width);
        lemma_column_of_text(old_clusters, index, tab_width);
    }
    assert(boundary_at(new_clusters, x + width, tab_width) == Some(index + 1)) by {
        assert forall|before: int| 0 <= before < index + 1 implies column_of(
            new_clusters,
            before,
            tab_width,
        ) < x + width by {
            lemma_column_of_grows(new_clusters, before, index, tab_width);
        }
        lemma_boundary_at(new_clusters, x + width, index + 1, tab_width);
    }
    assert(without(typed, index) == text) by {
        lemma_flatten_concat(
            new_clusters.subrange(0, index),
            new_clusters.subrange(index + 1, new_clusters.len() as int),
        );
    }
    assert(after_insert(rows, at, c, tab_width).update(y, text) == rows);
}

/// Breaking a line and then deleting backward from the start of the new row
/// gives the rows back.
pub proof fn lemma_newline_then_delete_backward(
    rows: Seq<Seq<char>>,
    at: Position,
    tab_width: usize,
)
    requires
        at.y < rows.len(),
        at.y < usize::MAX,
        segmented(rows[at.y as int]),
    ensures
        after_delete_backward(
            after_newline(rows, at, tab_width),
            Position { x: 0, y: (at.y + 1) as usize },
            tab_width,
        ) == rows,
{
    let y = at.y as int;
    let clusters = grapheme_clusters(rows[y]);
    let cut = match boundary_at(clusters, at.x as int, tab_width) {
        Some(index) => index,
        None => clusters.len() as int,
    };
    if boundary_at(clusters, at.x as int, tab_width) is Some {
        assert(is_boundary_at(clusters, at.x as int, cut, tab_width));
    }
    lemma_take_skip_flatten(clusters, cut);
    let broken = after_newline(rows, at, tab_width);
    assert(broken[y] + broken[y + 1] == rows[y]);
    assert(broken.update(y, rows[y]).remove(y + 1) == rows);
}

/// Deleting forward at the end of the last row changes no row, nor does
/// deleting backward at the start of the first.
pub proof fn lemma_delete_at_the_ends(rows: Seq<Seq<char>>, end: Position, tab_width: usize)
    requires
        end.y + 1 == rows.len(),
        end.x == display_len(rows[end.y as int], tab_width),
    ensures
        after_delete_forward(rows, end, tab_width) == rows,
        after_delete_backward(rows, Position { x: 0, y: 0 }, tab_width) == rows,
{
}

/// Rows that hold no line feed and end in no carriage return come back from
/// the text of their file as they went in.
pub proof fn lemma_text_round_trip(rows: Seq<Seq<char>>)
    requires
        forall|y: int, i: int|
            0 <= y < rows.len() && 0 <= i < rows[y].len() ==> #[trigger] rows[y][i] != '\n',
        forall|y: int|
            0 <= y < rows.len() && rows[y].len() > 0 ==> (#[trigger] rows[y]).last() != '\r',
    ensures
        lines_of(text_of(rows)) == rows,
    decreases rows.len(),
{
    let line = |row: Seq<char>| row.push('\n');
    if rows.len() == 0 {
        assert(rows.map_values(line) == Seq::<Seq<char>>::empty());
    } else {
        let first = rows[0];
        let rest = rows.drop_first();
        assert(rows.map_values(line).drop_first() == rest.map_values(line));
        let text = text_of(rows);
        assert(text == first.push('\n') + text_of(rest));
        assert(is_line_end(text, first.len() as int)) by {
            assert forall|j: int| 0 <= j < first.len() implies text[j] != '\n' by {
                assert(text[j] == rows[0][j]);
            }
        }
        lemma_line_end(text, first.len() as int);
        assert(text.take(first.len() as int) == first);
        assert(text.skip(first.len() as int + 1) == text_of(rest));
        assert forall|y: int, i: int|
            0 <= y < rest.len() && 0 <= i < rest[y].len() implies #[trigger] rest[y][i]
            != '\n' by {
            assert(rest[y][i] == rows[y + 1][i]);
        }
        assert forall|y: int| 0 <= y < rest.len() && rest[y].len() > 0 implies (
        #[trigger] rest[y]).last() != '\r' by {
            assert(rest[y] == rows[y + 1]);
        }
        lemma_text_round_trip(rest);
        assert(seq![first] + rest == rows);
    }
}

/// The characters `from..to` of `text` as a string.
fn string_of(text: &Vec<char>, from: usize, to: usize) -> (s: String)
    requires
        from <= to <= text.len(),
    ensures
        s@ == text@.subrange(from as int, to as int),
{
    let mut s = String::new();
    let mut i = from;
    while i < to
        invariant
            from <= i <= to <= text.len(),
            s@ == text@.subrange(from as int, i as int),
        decreases to - i,
    {
        s.push(text[i]);
        i += 1;
        assert(text@.subrange(from as int, i as int) == text@.subrange(from as int, i - 1).push(
            text[i - 1],
        ));
    }
    s
}

/// A first line feed is the only place that `line_end` can name.
pub proof fn lemma_line_end(text: Seq<char>, i: int)
    requires
        is_line_end(text, i),
    ensures
        line_end(text) == i,
{
    let chosen = choose|j: int| is_line_end(text, j);
    if chosen < i {
        assert(text[chosen] != '\n');
    } else if i < chosen {
        assert(text[i] != '\n');
    }
}

/// A text without a line feed is one line.
pub proof fn lemma_no_line_end(text: Seq<char>)
    requires
        forall|j: int| 0 <= j < text.len() ==> text[j] != '\n',
    ensures
        line_end(text) == text.len(),
{
    if exists|i: int| is_line_end(text, i) {
        let i = choose|i: int| is_line_end(text, i);
        assert(text[i] == '\n');
    }
}

/// Where `query` is found in the rows, no row above holds it, and the place
/// is where it is found in that row.
pub proof fn lemma_found_in_is_topmost(rows: Seq<Seq<char>>, query: Seq<char>, tab_width: usize)
    requires
        rows.len() <= usize::MAX,
    ensures
        found_in(rows, query, tab_width) matches Some(at) ==> {
            &&& is_first_row_with(rows, query, at.y as int)
            &&& at == found_at(rows, query, at.y as int, tab_width)
        },
{
}

/// A first row that holds `query` is the only one that `found_in` can name.
pub proof fn lemma_found_in(rows: Seq<Seq<char>>, query: Seq<char>, y: int, tab_width: usize)
    requires
        is_first_row_with(rows, query, y),
    ensures
        found_in(rows, query, tab_width) == Some(found_at(rows, query, y, tab_width)),
{
    let chosen = choose|k: int| is_first_row_with(rows, query, k);
    if chosen < y {
        assert(found(rows[chosen], query) is None);
    } else if y < chosen {
        assert(found(rows[y], query) is None);
    }
}

} // verus!
