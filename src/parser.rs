use vstd::prelude::*;
use vstd::string::StrSliceExecFns;

use crate::text::{has_prefix, starts_with, trim, trimmed};

verus! {

/// Shortest line, in characters, that counts as paragraph prose.
pub const PARAGRAPH_MIN_LEN: usize = 70;

/// Marker that opens a book; the following line is its title.
pub open spec fn book_marker() -> Seq<char> {
    "BOOK"@
}

/// Marker that opens a chapter; the following line is its title.
pub open spec fn chapter_marker() -> Seq<char> {
    "CHAPTER"@
}

/// A line of prose: neither marker, and long enough.
pub open spec fn is_paragraph_line(line: Seq<char>) -> bool {
    !starts_with(line, book_marker()) && !starts_with(line, chapter_marker()) && line.len()
        >= PARAGRAPH_MIN_LEN
}

/// A chapter as a value: its title and the contents of its paragraphs.
pub struct ChapterModel {
    pub title: Seq<char>,
    pub paragraphs: Seq<Seq<char>>,
}

/// A book as a value: its title and its chapters.
pub struct BookModel {
    pub title: Seq<char>,
    pub chapters: Seq<ChapterModel>,
}

/// Why a document could not be parsed; `line` counts from 1.
#[derive(Debug, Clone, Copy, PartialEq, Eq, Structural)]
pub enum ParseError {
    /// A chapter marker came before any book marker.
    ChapterWithoutBook { line: usize },
    /// A paragraph line came while the current book had no chapter yet.
    ParagraphWithoutChapter { line: usize },
}

#[derive(Debug)]
pub struct WealthOfNationsParagraph {
    pub content: String,
}

#[derive(Debug)]
pub struct WealthOfNationsChapter {
    pub title: String,
    pub paragraphs: Vec<WealthOfNationsParagraph>,
}

#[derive(Debug)]
pub struct WealthOfNationsBook {
    pub title: String,
    pub chapters: Vec<WealthOfNationsChapter>,
}

#[derive(Debug)]
pub struct WealthOfNations {
    pub books: Vec<WealthOfNationsBook>,
}

impl View for WealthOfNationsParagraph {
    type V = Seq<char>;

    open spec fn view(&self) -> Seq<char> {
        self.content@
    }
}

impl View for WealthOfNationsChapter {
    type V = ChapterModel;

    open spec fn view(&self) -> ChapterModel {
        ChapterModel {
            title: self.title@,
            paragraphs: self.paragraphs@.map_values(|p: WealthOfNationsParagraph| p@),
        }
    }
}

impl View for WealthOfNationsBook {
    type V = BookModel;

    open spec fn view(&self) -> BookModel {
        BookModel {
            title: self.title@,
            chapters: self.chapters@.map_values(|c: WealthOfNationsChapter| c@),
        }
    }
}

impl View for WealthOfNations {
    type V = Seq<BookModel>;

    open spec fn view(&self) -> Seq<BookModel> {
        self.books@.map_values(|b: WealthOfNationsBook| b@)
    }
}

/// A chapter gets one more paragraph at its end.
pub open spec fn chapter_add_paragraph(c: ChapterModel, p: Seq<char>) -> ChapterModel {
    ChapterModel { paragraphs: c.paragraphs.push(p), ..c }
}

/// A book gets one more chapter at its end.
pub open spec fn book_add_chapter(b: BookModel, c: ChapterModel) -> BookModel {
    BookModel { chapters: b.chapters.push(c), ..b }
}

/// The last chapter of a book gets one more paragraph.
pub open spec fn book_add_paragraph(b: BookModel, p: Seq<char>) -> BookModel {
    BookModel {
        chapters: b.chapters.update(
            b.chapters.len() - 1,
            chapter_add_paragraph(b.chapters.last(), p),
        ),
        ..b
    }
}

/// The last book of a document gets one more chapter.
pub open spec fn doc_add_chapter(d: Seq<BookModel>, c: ChapterModel) -> Seq<BookModel> {
    d.update(d.len() - 1, book_add_chapter(d.last(), c))
}

/// The last chapter of the last book of a document gets one more paragraph.
pub open spec fn doc_add_paragraph(d: Seq<BookModel>, p: Seq<char>) -> Seq<BookModel> {
    d.update(d.len() - 1, book_add_paragraph(d.last(), p))
}

/// The title that follows a marker on line `i`: the next line trimmed, or
/// empty where the text ends with the marker.
pub open spec fn title_after(lines: Seq<Seq<char>>, i: int) -> Seq<char> {
    if i + 1 < lines.len() {
        trimmed(lines[i + 1])
    } else {
        Seq::empty()
    }
}

/// The line after a marker and its title.
pub open spec fn after_title(lines: Seq<Seq<char>>, i: nat) -> nat {
    if i + 2 <= lines.len() {
        i + 2
    } else {
        lines.len()
    }
}

/// Reads lines `i..` into the tree `doc` built from the lines before.
pub open spec fn parse_from(lines: Seq<Seq<char>>, i: nat, doc: Seq<BookModel>) -> Result<
    Seq<BookModel>,
    ParseError,
>
    decreases lines.len() - i,
{
    if i >= lines.len() {
        Ok(doc)
    } else {
        let line = lines[i as int];
        if starts_with(line, book_marker()) {
            let book = BookModel { title: title_after(lines, i as int), chapters: Seq::empty() };
            parse_from(lines, after_title(lines, i), doc.push(book))
        } else if starts_with(line, chapter_marker()) {
            if doc.len() == 0 {
                Err(ParseError::ChapterWithoutBook { line: (i + 1) as usize })
            } else {
                let chapter = ChapterModel {
                    title: title_after(lines, i as int),
                    paragraphs: Seq::empty(),
                };
                parse_from(lines, after_title(lines, i), doc_add_chapter(doc, chapter))
            }
        } else if line.len() >= PARAGRAPH_MIN_LEN {
            if doc.len() == 0 || doc.last().chapters.len() == 0 {
                Err(ParseError::ParagraphWithoutChapter { line: (i + 1) as usize })
            } else {
                parse_from(lines, i + 1, doc_add_paragraph(doc, trimmed(line)))
            }
        } else {
            parse_from(lines, i + 1, doc)
        }
    }
}

/// The tree that a whole text gives, or the first error in it.
pub open spec fn parse_document(lines: Seq<Seq<char>>) -> Result<Seq<BookModel>, ParseError> {
    parse_from(lines, 0, Seq::empty())
}

/// The characters of each line.
pub open spec fn line_texts(lines: Seq<String>) -> Seq<Seq<char>> {
    lines.map_values(|s: String| s@)
}

impl WealthOfNationsChapter {
    pub fn add_paragraph(&mut self, paragraph: WealthOfNationsParagraph)
        ensures
            final(self)@ == chapter_add_paragraph(old(self)@, paragraph@),
    {
        self.paragraphs.push(paragraph);
        assert(self@.paragraphs =~= old(self)@.paragraphs.push(paragraph@));
    }
}

impl WealthOfNationsBook {
    pub fn add_chapter(&mut self, chapter: WealthOfNationsChapter)
        ensures
            final(self)@ == book_add_chapter(old(self)@, chapter@),
    {
        self.chapters.push(chapter);
        assert(self@.chapters =~= old(self)@.chapters.push(chapter@));
    }

    pub fn add_paragraph(&mut self, paragraph: WealthOfNationsParagraph)
        requires
            old(self).chapters.len() > 0,
        ensures
            final(self)@ == book_add_paragraph(old(self)@, paragraph@),
    {
        let mut chapter = self.chapters.pop().unwrap();
        chapter.add_paragraph(paragraph);
        self.chapters.push(chapter);
        assert(self@.chapters =~= book_add_paragraph(old(self)@, paragraph@).chapters);
    }
}

impl WealthOfNations {
    /// Builds the tree from the lines of a text. A book marker opens a book
    /// and a chapter marker a chapter of the current book, each titled by the
    /// next line; a longer line of prose becomes a paragraph of the current
    /// chapter; every other line is skipped.
    pub fn new(lines: &Vec<String>) -> (r: Result<WealthOfNations, ParseError>)
        ensures
            r is Ok <==> parse_document(line_texts(lines@)) is Ok,
            r matches Ok(d) ==> parse_document(line_texts(lines@)) == Ok::<
                Seq<BookModel>,
                ParseError,
            >(d@),
            r matches Err(e) ==> parse_document(line_texts(lines@)) == Err::<
                Seq<BookModel>,
                ParseError,
            >(e),
    {
        let ghost texts = line_texts(lines@);
        let n = lines.len();
        let mut doc = WealthOfNations { books: Vec::new() };
        let mut i: usize = 0;
        assert(doc@ =~= Seq::<BookModel>::empty());
        while i < n
            invariant
                n == lines@.len(),
                texts == line_texts(lines@),
                i <= n,
                parse_document(texts) == parse_from(texts, i as nat, doc@),
            decreases n - i,
        {
            let line = &lines[i];
            assert(texts[i as int] == line@);
            if has_prefix(line.as_str(), "BOOK") {
                let title = Self::title_after(lines, i);
                let book = WealthOfNationsBook { title, chapters: Vec::new() };
                assert(book@.chapters =~= Seq::<ChapterModel>::empty());
                doc.add_book(book);
                i = if n - i >= 2 { i + 2 } else { n };
            } else if has_prefix(line.as_str(), "CHAPTER") {
                if doc.books.len() == 0 {
                    return Err(ParseError::ChapterWithoutBook { line: i + 1 });
                }
                let title = Self::title_after(lines, i);
                let chapter = WealthOfNationsChapter { title, paragraphs: Vec::new() };
                assert(chapter@.paragraphs =~= Seq::<Seq<char>>::empty());
                doc.add_chapter(chapter);
                i = if n - i >= 2 { i + 2 } else { n };
            } else if line.unicode_len() >= PARAGRAPH_MIN_LEN {
                if doc.books.len() == 0 || doc.books[doc.books.len() - 1].chapters.len() == 0 {
                    return Err(ParseError::ParagraphWithoutChapter { line: i + 1 });
                }
                let paragraph = WealthOfNationsParagraph { content: trim(line.as_str()) };
                doc.add_paragraph(paragraph);
                i = i + 1;
            } else {
                i = i + 1;
            }
        }
        Ok(doc)
    }

    fn title_after(lines: &Vec<String>, i: usize) -> (r: String)
        requires
            i < lines@.len(),
        ensures
            r@ == title_after(line_texts(lines@), i as int),
    {
        if i < lines.len() - 1 {
            trim(lines[i + 1].as_str())
        } else {
            String::new()
        }
    }
    pub fn add_book(&mut self, book: WealthOfNationsBook)
        ensures
            final(self)@ == old(self)@.push(book@),
    {
        self.books.push(book);
        assert(self@ =~= old(self)@.push(book@));
    }

    pub fn add_chapter(&mut self, chapter: WealthOfNationsChapter)
        requires
            old(self).books.len() > 0,
        ensures
            final(self)@ == doc_add_chapter(old(self)@, chapter@),
    {
        let mut book = self.books.pop().unwrap();
        book.add_chapter(chapter);
        self.books.push(book);
        assert(self@ =~= doc_add_chapter(old(self)@, chapter@));
    }

    pub fn add_paragraph(&mut self, paragraph: WealthOfNationsParagraph)
        requires
            old(self).books.len() > 0,
            old(self)@.last().chapters.len() > 0,
        ensures
            final(self)@ == doc_add_paragraph(old(self)@, paragraph@),
    {
        let mut book = self.books.pop().unwrap();
        book.add_paragraph(paragraph);
        self.books.push(book);
        assert(self@ =~= doc_add_paragraph(old(self)@, paragraph@));
    }
}

/// Parsing is a function of the text alone: equal texts give equal trees,
/// or the same error.
pub proof fn parse_is_deterministic(a: Seq<Seq<char>>, b: Seq<Seq<char>>)
    requires
        a == b,
    ensures
        parse_document(a) == parse_document(b),
{
}

/// Inside a chapter, a line that is neither marker becomes a paragraph when
/// it has at least 70 characters, and is skipped when it has fewer (69 or
/// less).
pub proof fn paragraph_threshold(lines: Seq<Seq<char>>, i: nat, doc: Seq<BookModel>)
    requires
        i < lines.len(),
        !starts_with(lines[i as int], book_marker()),
        !starts_with(lines[i as int], chapter_marker()),
        doc.len() > 0,
        doc.last().chapters.len() > 0,
    ensures
        lines[i as int].len() < 70 ==> parse_from(lines, i, doc) == parse_from(lines, i + 1, doc),
        lines[i as int].len() >= 70 ==> parse_from(lines, i, doc) == parse_from(
            lines,
            i + 1,
            doc_add_paragraph(doc, trimmed(lines[i as int])),
        ),
{
}

/// A chapter marker before any book, and a paragraph line while the current
/// book has no chapter, stop the parse with an error that names the line.
pub proof fn orphan_lines_are_errors(lines: Seq<Seq<char>>, i: nat, doc: Seq<BookModel>)
    requires
        i < lines.len(),
    ensures
        starts_with(lines[i as int], chapter_marker()) && doc.len() == 0 ==> parse_from(
            lines,
            i,
            doc,
        ) == Err::<Seq<BookModel>, ParseError>(
            ParseError::ChapterWithoutBook { line: (i + 1) as usize },
        ),
        is_paragraph_line(lines[i as int]) && (doc.len() == 0 || doc.last().chapters.len() == 0)
            ==> parse_from(lines, i, doc) == Err::<Seq<BookModel>, ParseError>(
            ParseError::ParagraphWithoutChapter { line: (i + 1) as usize },
        ),
{
    reveal_strlit("BOOK");
    reveal_strlit("CHAPTER");
    let line = lines[i as int];
    if starts_with(line, chapter_marker()) {
        assert(line[0] == chapter_marker()[0]);
        assert(line.subrange(0, 4)[0] == line[0]);
        assert(!starts_with(line, book_marker()));
    }
}

} // verus!
