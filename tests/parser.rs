use wealth_of_nations::parser::{
    ParseError, WealthOfNations, WealthOfNationsBook, WealthOfNationsChapter,
    WealthOfNationsParagraph,
};

fn lines(text: &[&str]) -> Vec<String> {
    text.iter().map(|s| s.to_string()).collect()
}

fn prose(n: usize) -> String {
    "p".repeat(n)
}

#[test]
fn counts_and_order_at_every_level() {
    let p70 = prose(70);
    let p80 = prose(80);
    let input = lines(&[
        "BOOK I",
        "Of the Causes",
        "CHAPTER I",
        "Of the Division of Labour",
        &p70,
        "",
        &p80,
        "CHAPTER II",
        "Of the Principle",
        &p70,
        "BOOK II",
        "Of the Nature",
        "CHAPTER I",
        "Of Stock",
    ]);
    let doc = WealthOfNations::new(&input).unwrap();
    assert_eq!(doc.books.len(), 2);
    assert_eq!(doc.books[0].title, "Of the Causes");
    assert_eq!(doc.books[0].chapters.len(), 2);
    assert_eq!(doc.books[0].chapters[0].title, "Of the Division of Labour");
    assert_eq!(doc.books[0].chapters[0].paragraphs.len(), 2);
    assert_eq!(doc.books[0].chapters[0].paragraphs[0].content, p70);
    assert_eq!(doc.books[0].chapters[0].paragraphs[1].content, p80);
    assert_eq!(doc.books[0].chapters[1].paragraphs.len(), 1);
    assert_eq!(doc.books[1].title, "Of the Nature");
    assert_eq!(doc.books[1].chapters.len(), 1);
    assert_eq!(doc.books[1].chapters[0].title, "Of Stock");
    assert_eq!(doc.books[1].chapters[0].paragraphs.len(), 0);
}

#[test]
fn parsing_twice_gives_equal_trees() {
    let p = prose(90);
    let input = lines(&["BOOK I", "B", "CHAPTER I", "C", &p, "CHAPTER II", "D", &p]);
    let a = WealthOfNations::new(&input).unwrap();
    let b = WealthOfNations::new(&input).unwrap();
    assert_eq!(format!("{:?}", a), format!("{:?}", b));
}

#[test]
fn line_of_69_characters_is_skipped() {
    let p = prose(69);
    let input = lines(&["BOOK I", "B", "CHAPTER I", "C", &p]);
    let doc = WealthOfNations::new(&input).unwrap();
    assert_eq!(doc.books[0].chapters[0].paragraphs.len(), 0);
}

#[test]
fn line_of_70_characters_is_a_paragraph() {
    let p = prose(70);
    let input = lines(&["BOOK I", "B", "CHAPTER I", "C", &p]);
    let doc = WealthOfNations::new(&input).unwrap();
    assert_eq!(doc.books[0].chapters[0].paragraphs.len(), 1);
}

#[test]
fn length_counts_characters_not_bytes() {
    let p = "é".repeat(69);
    let input = lines(&["BOOK I", "B", "CHAPTER I", "C", &p]);
    let doc = WealthOfNations::new(&input).unwrap();
    assert_eq!(doc.books[0].chapters[0].paragraphs.len(), 0);
}

#[test]
fn paragraph_before_any_book_is_an_error() {
    let p = prose(75);
    let input = lines(&["", &p]);
    let r = WealthOfNations::new(&input);
    assert_eq!(r.unwrap_err(), ParseError::ParagraphWithoutChapter { line: 2 });
}

#[test]
fn paragraph_before_any_chapter_is_an_error() {
    let p = prose(75);
    let input = lines(&["BOOK I", "B", &p]);
    let r = WealthOfNations::new(&input);
    assert_eq!(r.unwrap_err(), ParseError::ParagraphWithoutChapter { line: 3 });
}

#[test]
fn chapter_before_any_book_is_an_error() {
    let input = lines(&["Preface", "CHAPTER I", "C"]);
    let r = WealthOfNations::new(&input);
    assert_eq!(r.unwrap_err(), ParseError::ChapterWithoutBook { line: 2 });
}

#[test]
fn titles_and_paragraphs_are_trimmed() {
    let p = format!("   {}  \t", prose(72));
    let input = lines(&["BOOK I", "  Of the Causes  ", "CHAPTER I", "\tCh.1 ", &p]);
    let doc = WealthOfNations::new(&input).unwrap();
    assert_eq!(doc.books[0].title, "Of the Causes");
    assert_eq!(doc.books[0].chapters[0].title, "Ch.1");
    assert_eq!(doc.books[0].chapters[0].paragraphs[0].content, prose(72));
}

#[test]
fn title_line_is_never_a_paragraph_or_marker() {
    let long_title = prose(100);
    let input = lines(&["BOOK I", &long_title, "CHAPTER I", "BOOK-like title"]);
    let doc = WealthOfNations::new(&input).unwrap();
    assert_eq!(doc.books.len(), 1);
    assert_eq!(doc.books[0].title, long_title);
    assert_eq!(doc.books[0].chapters[0].title, "BOOK-like title");
}

#[test]
fn marker_on_last_line_has_empty_title() {
    let input = lines(&["BOOK I"]);
    let doc = WealthOfNations::new(&input).unwrap();
    assert_eq!(doc.books.len(), 1);
    assert_eq!(doc.books[0].title, "");
}

#[test]
fn markers_are_case_sensitive_prefixes() {
    let input = lines(&["book I", "BOOKS", "T", "Chapter", "CHAPTERS", "C"]);
    let doc = WealthOfNations::new(&input).unwrap();
    assert_eq!(doc.books.len(), 1);
    assert_eq!(doc.books[0].title, "T");
    assert_eq!(doc.books[0].chapters.len(), 1);
}

#[test]
fn empty_text_gives_empty_document() {
    let doc = WealthOfNations::new(&Vec::new()).unwrap();
    assert!(doc.books.is_empty());
}

#[test]
fn builders_append_at_the_end() {
    let mut doc = WealthOfNations { books: Vec::new() };
    doc.add_book(WealthOfNationsBook { title: "B".to_string(), chapters: Vec::new() });
    doc.add_chapter(WealthOfNationsChapter { title: "C1".to_string(), paragraphs: Vec::new() });
    doc.add_chapter(WealthOfNationsChapter { title: "C2".to_string(), paragraphs: Vec::new() });
    doc.add_paragraph(WealthOfNationsParagraph { content: "x".to_string() });
    assert_eq!(doc.books[0].chapters.len(), 2);
    assert_eq!(doc.books[0].chapters[0].paragraphs.len(), 0);
    assert_eq!(doc.books[0].chapters[1].paragraphs[0].content, "x");

    let mut book = WealthOfNationsBook { title: "B".to_string(), chapters: Vec::new() };
    book.add_chapter(WealthOfNationsChapter { title: "C".to_string(), paragraphs: Vec::new() });
    book.add_paragraph(WealthOfNationsParagraph { content: "y".to_string() });
    assert_eq!(book.chapters[0].paragraphs[0].content, "y");

    let mut chapter = WealthOfNationsChapter { title: "C".to_string(), paragraphs: Vec::new() };
    chapter.add_paragraph(WealthOfNationsParagraph { content: "z".to_string() });
    assert_eq!(chapter.paragraphs.len(), 1);
}
