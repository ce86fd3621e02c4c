use vstd::prelude::*;

use crate::parser::{
    book_add_chapter, book_marker, chapter_add_paragraph, chapter_marker, doc_add_chapter,
    doc_add_paragraph, is_paragraph_line, parse_document, parse_from, BookModel, ChapterModel,
    ParseError,
};
use crate::text::{starts_with, trimmed};

verus! {

/// The lines that spell out a chapter: its marker, its title, then one line
/// per paragraph.
pub open spec fn chapter_lines(c: ChapterModel) -> Seq<Seq<char>> {
    seq![chapter_marker(), c.title] + c.paragraphs
}

pub open spec fn chapters_lines(cs: Seq<ChapterModel>) -> Seq<Seq<char>>
    decreases cs.len(),
{
    if cs.len() == 0 {
        Seq::empty()
    } else {
        chapters_lines(cs.drop_last()) + chapter_lines(cs.last())
    }
}

/// The lines that spell out a book: its marker, its title, then its chapters.
pub open spec fn book_lines(b: BookModel) -> Seq<Seq<char>> {
    seq![book_marker(), b.title] + chapters_lines(b.chapters)
}

/// The lines that spell out a whole document, book after book.
pub open spec fn document_lines(bs: Seq<BookModel>) -> Seq<Seq<char>>
    decreases bs.len(),
{
    if bs.len() == 0 {
        Seq::empty()
    } else {
        document_lines(bs.drop_last()) + book_lines(bs.last())
    }
}

/// Every paragraph of the chapter reads as prose.
pub open spec fn chapter_well_formed(c: ChapterModel) -> bool {
    forall|k: int| 0 <= k < c.paragraphs.len() ==> is_paragraph_line(#[trigger] c.paragraphs[k])
}

pub open spec fn book_well_formed(b: BookModel) -> bool {
    forall|k: int| 0 <= k < b.chapters.len() ==> chapter_well_formed(#[trigger] b.chapters[k])
}

pub open spec fn document_well_formed(bs: Seq<BookModel>) -> bool {
    forall|k: int| 0 <= k < bs.len() ==> book_well_formed(#[trigger] bs[k])
}

/// A chapter as the parser stores it: title and paragraphs trimmed.
pub open spec fn trim_chapter(c: ChapterModel) -> ChapterModel {
    ChapterModel {
        title: trimmed(c.title),
        paragraphs: c.paragraphs.map_values(|p: Seq<char>| trimmed(p)),
    }
}

pub open spec fn trim_book(b: BookModel) -> BookModel {
    BookModel {
        title: trimmed(b.title),
        chapters: b.chapters.map_values(|c: ChapterModel| trim_chapter(c)),
    }
}

pub open spec fn trim_document(bs: Seq<BookModel>) -> Seq<BookModel> {
    bs.map_values(|b: BookModel| trim_book(b))
}

proof fn lemma_slice_front(lines: Seq<Seq<char>>, i: int, a: Seq<Seq<char>>, b: Seq<Seq<char>>)
    requires
        0 <= i,
        i + a.len() + b.len() <= lines.len(),
        lines.subrange(i, i + a.len() + b.len()) == a + b,
    ensures
        lines.subrange(i, i + a.len()) == a,
        lines.subrange(i + a.len(), i + a.len() + b.len()) == b,
{
    let x = a + b;
    assert forall|k: int| 0 <= k < a.len() implies lines.subrange(i, i + a.len())[k] == a[k] by {
        assert(lines.subrange(i, i + x.len())[k] == x[k]);
    }
    assert(lines.subrange(i, i + a.len()) =~= a);
    assert forall|k: int| 0 <= k < b.len() implies lines.subrange(
        i + a.len(),
        i + a.len() + b.len(),
    )[k] == b[k] by {
        assert(lines.subrange(i, i + x.len())[a.len() + k] == x[a.len() + k]);
    }
    assert(lines.subrange(i + a.len(), i + a.len() + b.len()) =~= b);
}

proof fn lemma_add_paragraph_to_new_chapter(d: Seq<BookModel>, c: ChapterModel, p: Seq<char>)
    requires
        d.len() > 0,
    ensures
        doc_add_paragraph(doc_add_chapter(d, c), p) == doc_add_chapter(
            d,
            chapter_add_paragraph(c, p),
        ),
{
    let x = doc_add_chapter(d, c);
    let b = book_add_chapter(d.last(), c);
    assert(x.last() == b);
    assert(b.chapters.update(b.chapters.len() - 1, chapter_add_paragraph(c, p))
        =~= d.last().chapters.push(chapter_add_paragraph(c, p)));
    assert(doc_add_paragraph(x, p) =~= doc_add_chapter(d, chapter_add_paragraph(c, p)));
}

/// Paragraph lines after a chapter's title land, trimmed and in order, in
/// that chapter.
proof fn lemma_parse_paragraphs(
    lines: Seq<Seq<char>>,
    i: nat,
    d: Seq<BookModel>,
    c: ChapterModel,
    ps: Seq<Seq<char>>,
)
    requires
        d.len() > 0,
        i + ps.len() <= lines.len(),
        lines.subrange(i as int, (i + ps.len()) as int) == ps,
        forall|k: int| 0 <= k < ps.len() ==> is_paragraph_line(#[trigger] ps[k]),
    ensures
        parse_from(lines, i, doc_add_chapter(d, c)) == parse_from(
            lines,
            i + ps.len(),
            doc_add_chapter(
                d,
                ChapterModel {
                    paragraphs: c.paragraphs + ps.map_values(|p: Seq<char>| trimmed(p)),
                    ..c
                },
            ),
        ),
    decreases ps.len(),
{
    if ps.len() == 0 {
        assert(c.paragraphs + ps.map_values(|p: Seq<char>| trimmed(p)) =~= c.paragraphs);
    } else {
        let n = ps.len();
        let front = ps.drop_last();
        assert(front + seq![ps.last()] =~= ps);
        lemma_slice_front(lines, i as int, front, seq![ps.last()]);
        lemma_parse_paragraphs(lines, i, d, c, front);
        let c1 = ChapterModel {
            paragraphs: c.paragraphs + front.map_values(|p: Seq<char>| trimmed(p)),
            ..c
        };
        let j = (i + n - 1) as nat;
        assert(lines[j as int] == lines.subrange(j as int, (i + n) as int)[0]);
        assert(lines[j as int] == ps.last());
        let s = doc_add_chapter(d, c1);
        assert(s.len() > 0 && s.last().chapters.len() > 0);
        assert(parse_from(lines, j, s) == parse_from(
            lines,
            j + 1,
            doc_add_paragraph(s, trimmed(ps.last())),
        ));
        lemma_add_paragraph_to_new_chapter(d, c1, trimmed(ps.last()));
        assert(chapter_add_paragraph(c1, trimmed(ps.last())).paragraphs =~= c.paragraphs
            + ps.map_values(|p: Seq<char>| trimmed(p)));
    }
}

proof fn lemma_markers_differ()
    ensures
        starts_with(chapter_marker(), chapter_marker()),
        !starts_with(chapter_marker(), book_marker()),
        starts_with(book_marker(), book_marker()),
{
    reveal_strlit("BOOK");
    reveal_strlit("CHAPTER");
    assert(chapter_marker().subrange(0, 7) =~= chapter_marker());
    assert(book_marker().subrange(0, 4) =~= book_marker());
    assert(chapter_marker().subrange(0, 4)[0] != book_marker()[0]);
}

/// A spelled-out chapter adds that chapter, trimmed, to the current book.
proof fn lemma_parse_chapter(lines: Seq<Seq<char>>, i: nat, d: Seq<BookModel>, c: ChapterModel)
    requires
        d.len() > 0,
        i + chapter_lines(c).len() <= lines.len(),
        lines.subrange(i as int, (i + chapter_lines(c).len()) as int) == chapter_lines(c),
        chapter_well_formed(c),
    ensures
        parse_from(lines, i, d) == parse_from(
            lines,
            i + chapter_lines(c).len(),
            doc_add_chapter(d, trim_chapter(c)),
        ),
{
    let head = seq![chapter_marker(), c.title];
    lemma_slice_front(lines, i as int, head, c.paragraphs);
    assert(lines[i as int] == lines.subrange(i as int, i + 2int)[0]);
    assert(lines[i + 1int] == lines.subrange(i as int, i + 2int)[1]);
    lemma_markers_differ();
    let empty = ChapterModel { title: trimmed(c.title), paragraphs: Seq::empty() };
    assert(parse_from(lines, i, d) == parse_from(lines, i + 2, doc_add_chapter(d, empty)));
    lemma_parse_paragraphs(lines, i + 2, d, empty, c.paragraphs);
    assert(Seq::<Seq<char>>::empty() + c.paragraphs.map_values(|p: Seq<char>| trimmed(p))
        =~= trim_chapter(c).paragraphs);
}

/// Spelled-out chapters after a book's title land, trimmed and in order, in
/// that book.
proof fn lemma_parse_chapters(
    lines: Seq<Seq<char>>,
    i: nat,
    d: Seq<BookModel>,
    b: BookModel,
    cs: Seq<ChapterModel>,
)
    requires
        i + chapters_lines(cs).len() <= lines.len(),
        lines.subrange(i as int, (i + chapters_lines(cs).len()) as int) == chapters_lines(cs),
        forall|k: int| 0 <= k < cs.len() ==> chapter_well_formed(#[trigger] cs[k]),
    ensures
        parse_from(lines, i, d.push(b)) == parse_from(
            lines,
            i + chapters_lines(cs).len(),
            d.push(
                BookModel {
                    chapters: b.chapters + cs.map_values(|c: ChapterModel| trim_chapter(c)),
                    ..b
                },
            ),
        ),
    decreases cs.len(),
{
    if cs.len() == 0 {
        assert(b.chapters + cs.map_values(|c: ChapterModel| trim_chapter(c)) =~= b.chapters);
    } else {
        let front = cs.drop_last();
        let last = cs.last();
        lemma_slice_front(lines, i as int, chapters_lines(front), chapter_lines(last));
        lemma_parse_chapters(lines, i, d, b, front);
        let b1 = BookModel {
            chapters: b.chapters + front.map_values(|c: ChapterModel| trim_chapter(c)),
            ..b
        };
        let j = i + chapters_lines(front).len();
        assert(chapter_well_formed(cs[cs.len() - 1]));
        lemma_parse_chapter(lines, j, d.push(b1), last);
        assert(d.push(b1).last() == b1);
        assert(doc_add_chapter(d.push(b1), trim_chapter(last)) =~= d.push(
            book_add_chapter(b1, trim_chapter(last)),
        ));
        assert(book_add_chapter(b1, trim_chapter(last)).chapters =~= b.chapters + cs.map_values(
            |c: ChapterModel| trim_chapter(c),
        ));
    }
}

/// A spelled-out book adds that book, trimmed, to the document.
proof fn lemma_parse_book(lines: Seq<Seq<char>>, i: nat, d: Seq<BookModel>, b: BookModel)
    requires
        i + book_lines(b).len() <= lines.len(),
        lines.subrange(i as int, (i + book_lines(b).len()) as int) == book_lines(b),
        book_well_formed(b),
    ensures
        parse_from(lines, i, d) == parse_from(lines, i + book_lines(b).len(), d.push(trim_book(b))),
{
    let head = seq![book_marker(), b.title];
    lemma_slice_front(lines, i as int, head, chapters_lines(b.chapters));
    assert(lines[i as int] == lines.subrange(i as int, i + 2int)[0]);
    assert(lines[i + 1int] == lines.subrange(i as int, i + 2int)[1]);
    lemma_markers_differ();
    let empty = BookModel { title: trimmed(b.title), chapters: Seq::empty() };
    assert(parse_from(lines, i, d) == parse_from(lines, i + 2, d.push(empty)));
    lemma_parse_chapters(lines, i + 2, d, empty, b.chapters);
    assert(Seq::<ChapterModel>::empty() + b.chapters.map_values(
        |c: ChapterModel| trim_chapter(c),
    ) =~= trim_book(b).chapters);
}

proof fn lemma_parse_books(lines: Seq<Seq<char>>, i: nat, d: Seq<BookModel>, bs: Seq<BookModel>)
    requires
        i + document_lines(bs).len() <= lines.len(),
        lines.subrange(i as int, (i + document_lines(bs).len()) as int) == document_lines(bs),
        document_well_formed(bs),
    ensures
        parse_from(lines, i, d) == parse_from(
            lines,
            i + document_lines(bs).len(),
            d + trim_document(bs),
        ),
    decreases bs.len(),
{
    if bs.len() == 0 {
        assert(d + trim_document(bs) =~= d);
    } else {
        let front = bs.drop_last();
        let last = bs.last();
        lemma_slice_front(lines, i as int, document_lines(front), book_lines(last));
        assert(document_well_formed(front)) by {
            assert forall|k: int| 0 <= k < front.len() implies book_well_formed(
                #[trigger] front[k],
            ) by {
                assert(front[k] == bs[k]);
            }
        }
        lemma_parse_books(lines, i, d, front);
        assert(book_well_formed(bs[bs.len() - 1]));
        lemma_parse_book(lines, i + document_lines(front).len(), d + trim_document(front), last);
        assert((d + trim_document(front)).push(trim_book(last)) =~= d + trim_document(bs));
    }
}

/// A document spelled out line by line, with every paragraph on a line of
/// prose, parses back to the same tree: as many books, chapters in each book
/// and paragraphs in each chapter, in the same order, with titles and
/// paragraphs trimmed.
pub proof fn parse_spelled_out_document(bs: Seq<BookModel>)
    requires
        document_well_formed(bs),
    ensures
        parse_document(document_lines(bs)) == Ok::<Seq<BookModel>, ParseError>(trim_document(bs)),
        trim_document(bs).len() == bs.len(),
        forall|k: int|
            0 <= k < bs.len() ==> (#[trigger] trim_document(bs)[k]).chapters.len()
                == bs[k].chapters.len(),
        forall|k: int, j: int|
            0 <= k < bs.len() && 0 <= j < bs[k].chapters.len() ==> (
            #[trigger] trim_document(bs)[k].chapters[j]).paragraphs.len()
                == bs[k].chapters[j].paragraphs.len(),
{
    let lines = document_lines(bs);
    assert(lines.subrange(0, lines.len() as int) =~= lines);
    lemma_parse_books(lines, 0, Seq::empty(), bs);
    assert(Seq::<BookModel>::empty() + trim_document(bs) =~= trim_document(bs));
}

} // verus!
