use wealth_of_nations::parser::WealthOfNations;
use wealth_of_nations::reader::{
    prompt_guide_line, Level, ModelError, Prompt, Request, RetryPolicy, Step, Summarizer,
};

fn lines(text: &[&str]) -> Vec<String> {
    text.iter().map(|s| s.to_string()).collect()
}

fn prose(tag: &str) -> String {
    format!("{}{}", tag, "x".repeat(80))
}

struct Run {
    writes: Vec<String>,
    prompts: Vec<(Level, String, String)>,
    end: Option<ModelError>,
}

/// Drives a traversal to its end; `reply` answers each call.
fn run(doc: WealthOfNations, policy: RetryPolicy, mut reply: impl FnMut(&Prompt) -> Option<String>) -> Run {
    let (mut s, first) = Summarizer::new(doc, policy);
    let mut out = Run { writes: Vec::new(), prompts: Vec::new(), end: None };
    let mut step: Step = first;
    loop {
        out.writes.extend(step.writes.iter().cloned());
        match &step.request {
            Request::Generate(p) => {
                out.prompts.push((p.level, p.context.clone(), p.content.clone()));
                let r = reply(p);
                step = s.on_reply(r);
            }
            Request::Finished => return out,
            Request::Abort(e) => {
                out.end = Some(*e);
                return out;
            }
        }
    }
}

fn sample() -> WealthOfNations {
    let p1 = prose("a");
    let p2 = prose("b");
    let p3 = prose("c");
    let input = lines(&["BOOK", "Book I", "CHAPTER", "Ch.1", &p1, &p2, "CHAPTER", "Ch.2", &p3]);
    WealthOfNations::new(&input).unwrap()
}

#[test]
fn end_to_end_terse_pipeline() {
    let r = run(sample(), RetryPolicy::new(), |_| Some("S".to_string()));
    assert!(r.end.is_none());
    assert_eq!(r.writes, vec!["Book I", "Ch.1", "S", "Ch.2", "S"]);
    let levels: Vec<Level> = r.prompts.iter().map(|p| p.0).collect();
    assert_eq!(
        levels,
        vec![Level::Paragraph, Level::Paragraph, Level::Chapter, Level::Paragraph, Level::Chapter]
    );
    assert_eq!(r.prompts[0].2, prose("a"));
    assert_eq!(r.prompts[1].1, "S\n\n");
    assert_eq!(r.prompts[2].2, "S\n\nS\n\n");
}

#[test]
fn chapter_context_is_earlier_chapters_of_same_book() {
    let p = prose("p");
    let input = lines(&[
        "BOOK", "One", "CHAPTER", "A", &p, "CHAPTER", "B", &p, "CHAPTER", "C", &p, "BOOK", "Two",
        "CHAPTER", "D", &p,
    ]);
    let doc = WealthOfNations::new(&input).unwrap();
    let mut n = 0;
    let r = run(doc, RetryPolicy::new(), |p| {
        n += 1;
        Some(match p.level {
            Level::Paragraph => format!("para{}", n),
            Level::Chapter => format!("chap{}", n),
        })
    });
    let chapter_contexts: Vec<String> = r
        .prompts
        .iter()
        .filter(|p| p.0 == Level::Chapter)
        .map(|p| p.1.clone())
        .collect();
    assert_eq!(
        chapter_contexts,
        vec!["".to_string(), "chap2\n\n".to_string(), "chap2\n\nchap4\n\n".to_string(), "".to_string()]
    );
    assert_eq!(r.writes, vec!["One", "A", "chap2", "B", "chap4", "C", "chap6", "Two", "D", "chap8"]);
}

#[test]
fn paragraph_context_is_earlier_paragraphs_of_same_chapter() {
    let p = prose("p");
    let input = lines(&["BOOK", "One", "CHAPTER", "A", &p, &p, "CHAPTER", "B", &p]);
    let doc = WealthOfNations::new(&input).unwrap();
    let mut n = 0;
    let r = run(doc, RetryPolicy::new(), |_| {
        n += 1;
        Some(format!("s{}", n))
    });
    let contexts: Vec<&str> = r.prompts.iter().map(|p| p.1.as_str()).collect();
    assert_eq!(contexts, vec!["", "s1\n\n", "", "", "s3\n\n"]);
}

#[test]
fn transient_failures_are_retried() {
    for k in 0..3u32 {
        let policy = RetryPolicy { max_attempts: 3, base_delay_ms: 10, max_delay_ms: 100 };
        let p = prose("p");
        let doc = WealthOfNations::new(&lines(&["BOOK", "One", "CHAPTER", "A", &p])).unwrap();
        let mut calls = 0u32;
        let r = run(doc, policy, |prompt| {
            calls += 1;
            if prompt.level == Level::Paragraph && calls <= k {
                None
            } else {
                Some("ok".to_string())
            }
        });
        assert!(r.end.is_none());
        assert_eq!(calls, k + 2);
        assert_eq!(r.writes, vec!["One", "A", "ok"]);
        assert_eq!(r.prompts[k as usize].2, prose("p"));
    }
}

#[test]
fn retry_delays_back_off() {
    let p = prose("p");
    let doc = WealthOfNations::new(&lines(&["BOOK", "One", "CHAPTER", "A", &p])).unwrap();
    let policy = RetryPolicy { max_attempts: 3, base_delay_ms: 10, max_delay_ms: 100 };
    let (mut s, _) = Summarizer::new(doc, policy);
    let a = s.on_reply(None);
    assert_eq!(a.delay_ms, 10);
    assert!(matches!(a.request, Request::Generate(_)));
    let b = s.on_reply(None);
    assert_eq!(b.delay_ms, 20);
    let c = s.on_reply(Some("fine".to_string()));
    assert_eq!(c.delay_ms, 0);
}

#[test]
fn exhausted_retries_abort_without_writing() {
    let mut calls = 0u32;
    let r = run(sample(), RetryPolicy::new(), |_| {
        calls += 1;
        None
    });
    assert_eq!(calls, 3);
    assert_eq!(r.end, Some(ModelError { attempts: 3 }));
    assert_eq!(r.writes, vec!["Book I"]);
}

#[test]
fn chapter_failure_writes_nothing_of_that_chapter() {
    let mut calls = 0u32;
    let r = run(sample(), RetryPolicy::new(), |p| {
        calls += 1;
        if p.level == Level::Chapter { None } else { Some("S".to_string()) }
    });
    assert_eq!(calls, 5);
    assert_eq!(r.end, Some(ModelError { attempts: 3 }));
    assert_eq!(r.writes, vec!["Book I"]);
}

#[test]
fn backoff_doubles_up_to_the_cap() {
    let p = RetryPolicy::new();
    assert_eq!(p.max_attempts, 3);
    let delays: Vec<u64> = (1..=7).map(|n| p.delay_ms(n)).collect();
    assert_eq!(delays, vec![500, 1000, 2000, 4000, 8000, 8000, 8000]);
    let q = RetryPolicy { max_attempts: 2, base_delay_ms: 50, max_delay_ms: 30 };
    assert_eq!(q.delay_ms(1), 30);
}

#[test]
fn empty_document_finishes_at_once() {
    let (_, step) = Summarizer::new(WealthOfNations { books: Vec::new() }, RetryPolicy::new());
    assert!(step.writes.is_empty());
    assert!(matches!(step.request, Request::Finished));
}

#[test]
fn books_without_chapters_only_write_titles() {
    let p = prose("p");
    let doc = WealthOfNations::new(&lines(&["BOOK", "One", "BOOK", "Two", "CHAPTER", "A", &p, "BOOK", "Three"]))
        .unwrap();
    let r = run(doc, RetryPolicy::new(), |_| Some("S".to_string()));
    assert_eq!(r.writes, vec!["One", "Two", "A", "S", "Three"]);
}

#[test]
fn empty_chapter_still_gets_a_chapter_call() {
    let doc = WealthOfNations::new(&lines(&["BOOK", "One", "CHAPTER", "A"])).unwrap();
    let r = run(doc, RetryPolicy::new(), |_| Some("S".to_string()));
    assert_eq!(r.prompts.len(), 1);
    assert_eq!(r.prompts[0].0, Level::Chapter);
    assert_eq!(r.prompts[0].2, "");
}

#[test]
fn prompt_text_holds_context_and_content() {
    let p = Prompt {
        level: Level::Paragraph,
        context: "EARLIER".to_string(),
        content: "CONTENT".to_string(),
    };
    let t = p.text();
    assert!(t.starts_with("You are an expert book reader."));
    let i = t.find("EARLIER").unwrap();
    let j = t.find("CONTENT").unwrap();
    assert!(i < j);
    assert!(t.contains("Content of Paragraph:"));
    assert!(t.ends_with(&prompt_guide_line()));
    let c = Prompt { level: Level::Chapter, context: String::new(), content: "X".to_string() };
    assert!(c.text().contains("Summarize the chapter in under 300 words"));
}

#[test]
fn guide_line_lists_the_rules() {
    let g = prompt_guide_line();
    assert!(g.contains("- Maintain a professional tone."));
    assert!(g.contains("- Do not end by asking a question."));
}
