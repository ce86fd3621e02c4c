use vstd::prelude::*;

use crate::parser::{line_texts, BookModel, ChapterModel, WealthOfNations};
use crate::text::{joined, push_summary};
use vstd::string::StringExecFns;

verus! {

/// The single-field record that a paragraph summary arrives in.
pub struct ParagraphNotes {
    pub summary: String,
}

/// The single-field record that a chapter summary arrives in.
pub struct ChapterNotes {
    pub summary: String,
}

/// The single-field record that a book summary arrives in.
pub struct BookNotes {
    pub summary: String,
}

/// Which unit a generation request summarizes.
#[derive(Debug, Clone, Copy, PartialEq, Eq, Structural)]
pub enum Level {
    Paragraph,
    Chapter,
}

/// Where a traversal stands.
#[derive(Debug, Clone, Copy, PartialEq, Eq, Structural)]
pub enum Stage {
    /// A generation request is outstanding.
    Running,
    /// Every book has been summarized.
    Finished,
    /// A unit failed on every attempt; nothing more will be asked.
    Aborted,
}

/// The generation service failed on every attempt allowed for one unit.
#[derive(Debug, Clone, Copy, PartialEq, Eq, Structural)]
pub struct ModelError {
    pub attempts: u32,
}

/// How often, and after what pause, a failed generation is asked again.
#[derive(Debug, Clone, Copy, PartialEq, Eq, Structural)]
pub struct RetryPolicy {
    /// Attempts per unit, the first included.
    pub max_attempts: u32,
    /// Pause before the first retry.
    pub base_delay_ms: u64,
    /// No pause is longer than this.
    pub max_delay_ms: u64,
}

/// The pause before retry number `n + 1`: the base pause doubled `n` times,
/// never over the cap.
pub open spec fn backoff(base: nat, cap: nat, n: nat) -> nat
    decreases n,
{
    if n == 0 {
        if base <= cap {
            base
        } else {
            cap
        }
    } else {
        let prev = backoff(base, cap, (n - 1) as nat);
        if 2 * prev <= cap {
            2 * prev
        } else {
            cap
        }
    }
}

proof fn lemma_backoff_capped(base: nat, cap: nat, n: nat)
    ensures
        backoff(base, cap, n) <= cap,
    decreases n,
{
    if n > 0 {
        lemma_backoff_capped(base, cap, (n - 1) as nat);
    }
}

/// Three attempts; pauses of half a second, doubling up to eight seconds.
pub const DEFAULT_MAX_ATTEMPTS: u32 = 3;

pub const DEFAULT_BASE_DELAY_MS: u64 = 500;

pub const DEFAULT_MAX_DELAY_MS: u64 = 8000;

impl RetryPolicy {
    pub fn new() -> (r: RetryPolicy)
        ensures
            r.max_attempts == DEFAULT_MAX_ATTEMPTS,
            r.base_delay_ms == DEFAULT_BASE_DELAY_MS,
            r.max_delay_ms == DEFAULT_MAX_DELAY_MS,
    {
        RetryPolicy {
            max_attempts: DEFAULT_MAX_ATTEMPTS,
            base_delay_ms: DEFAULT_BASE_DELAY_MS,
            max_delay_ms: DEFAULT_MAX_DELAY_MS,
        }
    }

    /// The pause before asking again after `failures` failed attempts.
    pub fn delay_ms(&self, failures: u32) -> (r: u64)
        requires
            failures >= 1,
        ensures
            r == backoff(self.base_delay_ms as nat, self.max_delay_ms as nat, (failures - 1) as nat),
    {
        let mut delay: u64 = if self.base_delay_ms <= self.max_delay_ms {
            self.base_delay_ms
        } else {
            self.max_delay_ms
        };
        let mut k: u32 = 1;
        while k < failures
            invariant
                1 <= k <= failures,
                delay == backoff(self.base_delay_ms as nat, self.max_delay_ms as nat, (k - 1) as nat),
            decreases failures - k,
        {
            proof {
                lemma_backoff_capped(self.base_delay_ms as nat, self.max_delay_ms as nat, (k - 1) as nat);
            }
            delay = if delay <= self.max_delay_ms / 2 {
                2 * delay
            } else {
                self.max_delay_ms
            };
            k = k + 1;
        }
        delay
    }
}

/// A generation request as a value.
pub struct PromptModel {
    pub level: Level,
    pub context: Seq<char>,
    pub content: Seq<char>,
}

/// What a traversal asks for next, as a value.
pub enum RequestModel {
    Generate(PromptModel),
    Finished,
    Abort(nat),
}

/// A traversal's position and what it has gathered, as a value. The
/// summaries are those of the earlier paragraphs of the current chapter and
/// of the earlier chapters of the current book.
pub struct SummarizerModel {
    pub book: nat,
    pub chapter: nat,
    pub paragraph: nat,
    pub attempts: nat,
    pub stage: Stage,
    pub paragraph_summaries: Seq<Seq<char>>,
    pub chapter_summaries: Seq<Seq<char>>,
}

/// One generation request: the unit's level, the rolling context of its
/// earlier siblings, and the text to summarize.
pub struct Prompt {
    pub level: Level,
    pub context: String,
    pub content: String,
}

/// What the caller does next.
pub enum Request {
    /// Ask the generation service for a summary of this prompt.
    Generate(Prompt),
    /// Stop: the whole document is summarized.
    Finished,
    /// Stop: the generation service failed on every attempt.
    Abort(ModelError),
}

/// The fragments to append to the output, in order, then the next request,
/// to be made after `delay_ms` milliseconds.
pub struct Step {
    pub writes: Vec<String>,
    pub request: Request,
    pub delay_ms: u64,
}

impl View for Prompt {
    type V = PromptModel;

    open spec fn view(&self) -> PromptModel {
        PromptModel { level: self.level, context: self.context@, content: self.content@ }
    }
}

impl View for Request {
    type V = RequestModel;

    open spec fn view(&self) -> RequestModel {
        match self {
            Request::Generate(p) => RequestModel::Generate(p@),
            Request::Finished => RequestModel::Finished,
            Request::Abort(e) => RequestModel::Abort(e.attempts as nat),
        }
    }
}

pub open spec fn chapter_at(d: Seq<BookModel>, b: nat, c: nat) -> ChapterModel {
    d[b as int].chapters[c as int]
}

/// A running traversal points at an existing chapter and has one summary
/// for each earlier sibling.
pub open spec fn running_position(d: Seq<BookModel>, m: SummarizerModel) -> bool {
    &&& m.book < d.len()
    &&& m.chapter < d[m.book as int].chapters.len()
    &&& m.paragraph <= chapter_at(d, m.book, m.chapter).paragraphs.len()
    &&& m.paragraph_summaries.len() == m.paragraph
    &&& m.chapter_summaries.len() == m.chapter
}

/// The unit that a running traversal waits on: the next paragraph of the
/// chapter, or the chapter itself once all its paragraphs are summarized.
pub open spec fn pending_prompt(d: Seq<BookModel>, m: SummarizerModel) -> PromptModel {
    let ch = chapter_at(d, m.book, m.chapter);
    if m.paragraph < ch.paragraphs.len() {
        PromptModel {
            level: Level::Paragraph,
            context: joined(m.paragraph_summaries),
            content: ch.paragraphs[m.paragraph as int],
        }
    } else {
        PromptModel {
            level: Level::Chapter,
            context: joined(m.chapter_summaries),
            content: joined(m.paragraph_summaries),
        }
    }
}

pub open spec fn request_of(d: Seq<BookModel>, m: SummarizerModel) -> RequestModel {
    match m.stage {
        Stage::Running => RequestModel::Generate(pending_prompt(d, m)),
        Stage::Finished => RequestModel::Finished,
        Stage::Aborted => RequestModel::Abort(m.attempts),
    }
}

/// The first book from `b` on that has a chapter, or the number of books.
pub open spec fn arrive_book(d: Seq<BookModel>, b: nat) -> nat
    decreases d.len() - b,
{
    if b >= d.len() {
        d.len()
    } else if d[b as int].chapters.len() > 0 {
        b
    } else {
        arrive_book(d, b + 1)
    }
}

/// The titles written on the way from book `b` to `arrive_book(d, b)`,
/// that one included.
pub open spec fn arrive_writes(d: Seq<BookModel>, b: nat) -> Seq<Seq<char>>
    decreases d.len() - b,
{
    if b >= d.len() {
        Seq::empty()
    } else if d[b as int].chapters.len() > 0 {
        seq![d[b as int].title]
    } else {
        seq![d[b as int].title] + arrive_writes(d, b + 1)
    }
}

/// The traversal as it stands on entering book `b`: nothing gathered yet.
pub open spec fn arrive(d: Seq<BookModel>, b: nat) -> SummarizerModel {
    let nb = arrive_book(d, b);
    SummarizerModel {
        book: nb,
        chapter: 0,
        paragraph: 0,
        attempts: 0,
        stage: if nb < d.len() {
            Stage::Running
        } else {
            Stage::Finished
        },
        paragraph_summaries: Seq::empty(),
        chapter_summaries: Seq::empty(),
    }
}

/// The next state, and the fragments written, once the pending unit was
/// summarized as `s`. A chapter's title and summary are written as soon as
/// the summary arrives; a book's title when the traversal enters the book.
pub open spec fn on_success(d: Seq<BookModel>, m: SummarizerModel, s: Seq<char>) -> (
    SummarizerModel,
    Seq<Seq<char>>,
) {
    let ch = chapter_at(d, m.book, m.chapter);
    if m.paragraph < ch.paragraphs.len() {
        (
            SummarizerModel {
                paragraph: m.paragraph + 1,
                attempts: 0,
                paragraph_summaries: m.paragraph_summaries.push(s),
                ..m
            },
            Seq::empty(),
        )
    } else if m.chapter + 1 < d[m.book as int].chapters.len() {
        (
            SummarizerModel {
                chapter: m.chapter + 1,
                paragraph: 0,
                attempts: 0,
                paragraph_summaries: Seq::empty(),
                chapter_summaries: m.chapter_summaries.push(s),
                ..m
            },
            seq![ch.title, s],
        )
    } else {
        (arrive(d, m.book + 1), seq![ch.title, s] + arrive_writes(d, m.book + 1))
    }
}

/// The next state once an attempt failed: the same unit again while the
/// policy allows another attempt, else the end of the traversal.
pub open spec fn on_failure(max_attempts: nat, m: SummarizerModel) -> SummarizerModel {
    if m.attempts + 1 < max_attempts {
        SummarizerModel { attempts: m.attempts + 1, ..m }
    } else {
        SummarizerModel { attempts: m.attempts + 1, stage: Stage::Aborted, ..m }
    }
}

/// The guidelines that close every prompt.
pub open spec fn guide_lines() -> Seq<char> {
    "\n- Summarize concisely without adding introductory phrases like 'Here is a summary of the ...' or 'In summary:'. Provide only the summary itself without prefatory sentences.\n- Maintain a professional tone.\n- Do not end by asking a question.\n- Strive to be clear and concise.\n"@
}

/// The text before a prompt's context.
pub open spec fn prompt_head(level: Level) -> Seq<char> {
    match level {
        Level::Paragraph => "You are an expert book reader.\n\nInstructions:\nYou are given the content of a paragraph and the summaries of the paragraphs before it in the same chapter. Your task is to write a summary of the paragraph.\n\nSummaries of Earlier Paragraphs:\n"@,
        Level::Chapter => "You are an expert book reader.\n\nInstructions:\nYou are given the summaries of the earlier chapters of a book and the summaries of the paragraphs of one chapter. Your task is to write a summary of the chapter.\n\nSummaries of Earlier Chapters:\n"@,
    }
}

/// The text between a prompt's context and its content.
pub open spec fn prompt_middle(level: Level) -> Seq<char> {
    match level {
        Level::Paragraph => "\nContent of Paragraph:\n"@,
        Level::Chapter => "\nSummaries of the Paragraphs of the Chapter:\n"@,
    }
}

/// The text after a prompt's content, before the guidelines.
pub open spec fn prompt_tail(level: Level) -> Seq<char> {
    match level {
        Level::Paragraph => "\n\nGuidelines:\n- Summarize the paragraph in one to three sentences.\n"@,
        Level::Chapter => "\n\nGuidelines:\n- Summarize the chapter in under 300 words and keep everything in one paragraph.\n"@,
    }
}

/// The full text sent to the generation service for a request.
pub open spec fn prompt_text(p: PromptModel) -> Seq<char> {
    prompt_head(p.level) + p.context + prompt_middle(p.level) + p.content + prompt_tail(p.level)
        + guide_lines()
}

pub fn prompt_guide_line() -> (r: String)
    ensures
        r@ == guide_lines(),
{
    String::from_str(
        "\n- Summarize concisely without adding introductory phrases like 'Here is a summary of the ...' or 'In summary:'. Provide only the summary itself without prefatory sentences.\n- Maintain a professional tone.\n- Do not end by asking a question.\n- Strive to be clear and concise.\n",
    )
}

fn prompt_head_str(level: Level) -> (r: &'static str)
    ensures
        r@ == prompt_head(level),
{
    match level {
        Level::Paragraph => "You are an expert book reader.\n\nInstructions:\nYou are given the content of a paragraph and the summaries of the paragraphs before it in the same chapter. Your task is to write a summary of the paragraph.\n\nSummaries of Earlier Paragraphs:\n",
        Level::Chapter => "You are an expert book reader.\n\nInstructions:\nYou are given the summaries of the earlier chapters of a book and the summaries of the paragraphs of one chapter. Your task is to write a summary of the chapter.\n\nSummaries of Earlier Chapters:\n",
    }
}

fn prompt_middle_str(level: Level) -> (r: &'static str)
    ensures
        r@ == prompt_middle(level),
{
    match level {
        Level::Paragraph => "\nContent of Paragraph:\n",
        Level::Chapter => "\nSummaries of the Paragraphs of the Chapter:\n",
    }
}

fn prompt_tail_str(level: Level) -> (r: &'static str)
    ensures
        r@ == prompt_tail(level),
{
    match level {
        Level::Paragraph => "\n\nGuidelines:\n- Summarize the paragraph in one to three sentences.\n",
        Level::Chapter => "\n\nGuidelines:\n- Summarize the chapter in under 300 words and keep everything in one paragraph.\n",
    }
}

impl Prompt {
    /// The full text to send for this request.
    pub fn text(&self) -> (r: String)
        ensures
            r@ == prompt_text(self@),
    {
        let mut r = String::from_str(prompt_head_str(self.level));
        r.append(self.context.as_str());
        r.append(prompt_middle_str(self.level));
        r.append(self.content.as_str());
        r.append(prompt_tail_str(self.level));
        let guide = prompt_guide_line();
        r.append(guide.as_str());
        r
    }
}

/// Walks a document depth first, one generation request at a time, and
/// threads the rolling context of earlier siblings into each request. No
/// context crosses a book boundary.
pub struct Summarizer {
    pub document: WealthOfNations,
    pub policy: RetryPolicy,
    pub book: usize,
    pub chapter: usize,
    pub paragraph: usize,
    pub attempts: u32,
    pub stage: Stage,
    pub paragraph_context: String,
    pub chapter_context: String,
    pub paragraph_summaries: Ghost<Seq<Seq<char>>>,
    pub chapter_summaries: Ghost<Seq<Seq<char>>>,
}

impl View for Summarizer {
    type V = SummarizerModel;

    open spec fn view(&self) -> SummarizerModel {
        SummarizerModel {
            book: self.book as nat,
            chapter: self.chapter as nat,
            paragraph: self.paragraph as nat,
            attempts: self.attempts as nat,
            stage: self.stage,
            paragraph_summaries: self.paragraph_summaries@,
            chapter_summaries: self.chapter_summaries@,
        }
    }
}

impl Step {
    pub open spec fn written(&self) -> Seq<Seq<char>> {
        line_texts(self.writes@)
    }
}

impl Summarizer {
    pub open spec fn wf(&self) -> bool {
        &&& 1 <= self.policy.max_attempts
        &&& self.attempts < self.policy.max_attempts || self.stage == Stage::Aborted
        &&& self.paragraph_context@ == joined(self.paragraph_summaries@)
        &&& self.chapter_context@ == joined(self.chapter_summaries@)
        &&& self.stage == Stage::Running ==> running_position(self.document@, self@)
    }

    /// Starts a traversal of `document`: the title of the first book, and
    /// the first request.
    pub fn new(document: WealthOfNations, policy: RetryPolicy) -> (r: (Summarizer, Step))
        requires
            policy.max_attempts >= 1,
        ensures
            r.0.wf(),
            r.0.document@ == document@,
            r.0.policy == policy,
            r.0@ == arrive(document@, 0),
            r.1.written() == arrive_writes(document@, 0),
            r.1.request@ == request_of(document@, r.0@),
            r.1.delay_ms == 0,
    {
        let mut s = Summarizer {
            document,
            policy,
            book: 0,
            chapter: 0,
            paragraph: 0,
            attempts: 0,
            stage: Stage::Running,
            paragraph_context: String::new(),
            chapter_context: String::new(),
            paragraph_summaries: Ghost(Seq::empty()),
            chapter_summaries: Ghost(Seq::empty()),
        };
        let mut writes: Vec<String> = Vec::new();
        s.enter(&mut writes);
        assert(line_texts(writes@) =~= arrive_writes(s.document@, 0));
        let request = s.request();
        (s, Step { writes, request, delay_ms: 0 })
    }

    /// Enters book `self.book` with nothing gathered, writes the titles of
    /// the books it passes, and stops at the first one with a chapter.
    fn enter(&mut self, writes: &mut Vec<String>)
        requires
            old(self).chapter == 0,
            old(self).paragraph == 0,
            old(self).attempts == 0,
            old(self).paragraph_context@ == Seq::<char>::empty(),
            old(self).chapter_context@ == Seq::<char>::empty(),
            old(self).paragraph_summaries@ == Seq::<Seq<char>>::empty(),
            old(self).chapter_summaries@ == Seq::<Seq<char>>::empty(),
            old(self).policy.max_attempts >= 1,
            old(self).book <= old(self).document.books.len(),
        ensures
            final(self).document == old(self).document,
            final(self).policy == old(self).policy,
            final(self)@ == arrive(old(self).document@, old(self).book as nat),
            final(self).wf(),
            line_texts(final(writes)@) == line_texts(old(writes)@) + arrive_writes(
                old(self).document@,
                old(self).book as nat,
            ),
    {
        let ghost d = self.document@;
        let ghost b0 = self.book as nat;
        let ghost w0 = line_texts(writes@);
        let n = self.document.books.len();
        while self.book < n
            invariant
                self.document == old(self).document,
                self.policy == old(self).policy,
                d == self.document@,
                n == d.len(),
                b0 == old(self).book as nat,
                w0 == line_texts(old(writes)@),
                self.policy.max_attempts >= 1,
                self.book <= n,
                self.chapter == 0,
                self.paragraph == 0,
                self.attempts == 0,
                self.paragraph_context@ == Seq::<char>::empty(),
                self.chapter_context@ == Seq::<char>::empty(),
                self.paragraph_summaries@ == Seq::<Seq<char>>::empty(),
                self.chapter_summaries@ == Seq::<Seq<char>>::empty(),
                arrive_book(d, self.book as nat) == arrive_book(d, b0),
                w0 + arrive_writes(d, b0) == line_texts(writes@) + arrive_writes(
                    d,
                    self.book as nat,
                ),
            decreases n - self.book,
        {
            let ghost wb = line_texts(writes@);
            let book = &self.document.books[self.book];
            writes.push(book.title.clone());
            assert(line_texts(writes@) =~= wb.push(d[self.book as int].title));
            if book.chapters.len() > 0 {
                assert(wb + arrive_writes(d, self.book as nat) =~= line_texts(writes@));
                assert(w0 + arrive_writes(d, b0) =~= line_texts(writes@));
                self.stage = Stage::Running;
                assert(arrive_book(d, self.book as nat) == self.book);
                assert(joined(Seq::<Seq<char>>::empty()) == Seq::<char>::empty());
                assert(self@ == arrive(d, b0));
                return;
            }
            assert(wb + arrive_writes(d, self.book as nat) =~= line_texts(writes@)
                + arrive_writes(d, self.book as nat + 1));
            self.book = self.book + 1;
        }
        assert(w0 + arrive_writes(d, b0) =~= line_texts(writes@));
        self.stage = Stage::Finished;
        assert(joined(Seq::<Seq<char>>::empty()) == Seq::<char>::empty());
    }

    /// Takes the outcome of the outstanding request, `None` for a failed
    /// attempt, and says what to write and what to ask next.
    pub fn on_reply(&mut self, reply: Option<String>) -> (step: Step)
        requires
            old(self).wf(),
            old(self).stage == Stage::Running,
        ensures
            final(self).wf(),
            final(self).document == old(self).document,
            final(self).policy == old(self).policy,
            step.request@ == request_of(final(self).document@, final(self)@),
            match reply {
                None => {
                    &&& final(self)@ == on_failure(old(self).policy.max_attempts as nat, old(self)@)
                    &&& step.written() == Seq::<Seq<char>>::empty()
                    &&& step.delay_ms == if final(self).stage == Stage::Running {
                        backoff(
                            old(self).policy.base_delay_ms as nat,
                            old(self).policy.max_delay_ms as nat,
                            old(self).attempts as nat,
                        )
                    } else {
                        0
                    }
                },
                Some(s) => {
                    &&& (final(self)@, step.written()) == on_success(
                        old(self).document@,
                        old(self)@,
                        s@,
                    )
                    &&& step.delay_ms == 0
                },
            },
    {
        match reply {
            None => {
                self.attempts = self.attempts + 1;
                let delay_ms = if self.attempts < self.policy.max_attempts {
                    self.policy.delay_ms(self.attempts)
                } else {
                    self.stage = Stage::Aborted;
                    0
                };
                let request = self.request();
                let writes: Vec<String> = Vec::new();
                assert(line_texts(writes@) =~= Seq::<Seq<char>>::empty());
                Step { writes, request, delay_ms }
            },
            Some(summary) => {
                let ghost d = self.document@;
                let ghost m = self@;
                let mut writes: Vec<String> = Vec::new();
                assert(d[m.book as int] == self.document.books@[m.book as int]@);
                assert(d[m.book as int].chapters[m.chapter as int] == self.document.books@[m.book as int].chapters@[m.chapter as int]@);
                assert(self.chapter < self.document.books@[m.book as int].chapters@.len());
                let n_books = self.document.books.len();
                let n_chapters = self.document.books[self.book].chapters.len();
                let n_paragraphs = self.document.books[self.book].chapters[self.chapter].paragraphs.len();
                if self.paragraph < n_paragraphs {
                    push_summary(&mut self.paragraph_context, summary.as_str());
                    proof {
                        assert(m.paragraph_summaries.push(summary@).drop_last() =~= m.paragraph_summaries);
                    }
                    self.paragraph_summaries = Ghost(self.paragraph_summaries@.push(summary@));
                    self.paragraph = self.paragraph + 1;
                    self.attempts = 0;
                    assert(line_texts(writes@) =~= Seq::<Seq<char>>::empty());
                } else {
                    let title = self.document.books[self.book].chapters[self.chapter].title.clone();
                    writes.push(title);
                    push_summary(&mut self.chapter_context, summary.as_str());
                    proof {
                        assert(m.chapter_summaries.push(summary@).drop_last() =~= m.chapter_summaries);
                    }
                    writes.push(summary);
                    let ghost ws = line_texts(writes@);
                    assert(ws =~= seq![chapter_at(d, m.book, m.chapter).title, summary@]);
                    self.chapter_summaries = Ghost(self.chapter_summaries@.push(summary@));
                    self.paragraph_context = String::new();
                    self.paragraph_summaries = Ghost(Seq::empty());
                    self.paragraph = 0;
                    self.attempts = 0;
                    assert(self.chapter < n_chapters && self.book < n_books);
                    if self.chapter + 1 < n_chapters {
                        self.chapter = self.chapter + 1;
                    } else {
                        self.book = self.book + 1;
                        self.chapter = 0;
                        self.chapter_context = String::new();
                        self.chapter_summaries = Ghost(Seq::empty());
                        self.enter(&mut writes);
                    }
                }
                let request = self.request();
                Step { writes, request, delay_ms: 0 }
            },
        }
    }

    /// The request that the current state calls for.
    fn request(&self) -> (r: Request)
        requires
            self.wf(),
        ensures
            r@ == request_of(self.document@, self@),
    {
        match self.stage {
            Stage::Running => {
                let chapter = &self.document.books[self.book].chapters[self.chapter];
                if self.paragraph < chapter.paragraphs.len() {
                    Request::Generate(
                        Prompt {
                            level: Level::Paragraph,
                            context: self.paragraph_context.clone(),
                            content: chapter.paragraphs[self.paragraph].content.clone(),
                        },
                    )
                } else {
                    Request::Generate(
                        Prompt {
                            level: Level::Chapter,
                            context: self.chapter_context.clone(),
                            content: self.paragraph_context.clone(),
                        },
                    )
                }
            },
            Stage::Finished => Request::Finished,
            Stage::Aborted => Request::Abort(ModelError { attempts: self.attempts }),
        }
    }
}

/// The traversal after `k` failed attempts in a row.
pub open spec fn fail_times(max_attempts: nat, m: SummarizerModel, k: nat) -> SummarizerModel
    decreases k,
{
    if k == 0 {
        m
    } else {
        on_failure(max_attempts, fail_times(max_attempts, m, (k - 1) as nat))
    }
}

/// A unit that fails `k` times, `k` below the attempt limit, and then
/// succeeds: after each failure the same prompt is asked for again, so the
/// service is called `k + 1` times in all, and the success leads where a
/// first-time success would have led.
pub proof fn retry_then_success(
    d: Seq<BookModel>,
    max_attempts: nat,
    m: SummarizerModel,
    k: nat,
    s: Seq<char>,
)
    requires
        m.stage == Stage::Running,
        m.attempts == 0,
        k < max_attempts,
    ensures
        forall|j: nat|
            j <= k ==> #[trigger] fail_times(max_attempts, m, j) == (SummarizerModel {
                attempts: j,
                ..m
            }),
        forall|j: nat|
            j <= k ==> request_of(d, #[trigger] fail_times(max_attempts, m, j)) == request_of(d, m),
        on_success(d, fail_times(max_attempts, m, k), s) == on_success(d, m, s),
    decreases k,
{
    if k > 0 {
        retry_then_success(d, max_attempts, m, (k - 1) as nat, s);
        assert(fail_times(max_attempts, m, (k - 1) as nat) == (SummarizerModel {
            attempts: (k - 1) as nat,
            ..m
        }));
    }
    assert forall|j: nat| j <= k implies request_of(d, #[trigger] fail_times(max_attempts, m, j))
        == request_of(d, m) by {
        assert(fail_times(max_attempts, m, j) == (SummarizerModel { attempts: j, ..m }));
    }
}

/// A unit that fails on every attempt: the traversal asks again until the
/// attempt limit is spent, keeps its position and its gathered summaries all
/// the while, and then ends with an error that counts the attempts.
pub proof fn retry_exhaustion(d: Seq<BookModel>, max_attempts: nat, m: SummarizerModel)
    requires
        m.stage == Stage::Running,
        m.attempts == 0,
        max_attempts >= 1,
    ensures
        forall|j: nat|
            j < max_attempts ==> (#[trigger] fail_times(max_attempts, m, j)).stage
                == Stage::Running,
        fail_times(max_attempts, m, max_attempts) == (SummarizerModel {
            attempts: max_attempts,
            stage: Stage::Aborted,
            ..m
        }),
        request_of(d, fail_times(max_attempts, m, max_attempts)) == RequestModel::Abort(
            max_attempts,
        ),
{
    let k = (max_attempts - 1) as nat;
    retry_then_success(d, max_attempts, m, k, Seq::empty());
    assert(fail_times(max_attempts, m, k) == (SummarizerModel { attempts: k, ..m }));
    assert forall|j: nat| j < max_attempts implies (#[trigger] fail_times(
        max_attempts,
        m,
        j,
    )).stage == Stage::Running by {
        assert(fail_times(max_attempts, m, j) == (SummarizerModel { attempts: j, ..m }));
    }
}

proof fn lemma_arrive_book_ahead(d: Seq<BookModel>, b: nat)
    requires
        b <= d.len(),
    ensures
        b <= arrive_book(d, b) <= d.len(),
    decreases d.len() - b,
{
    if b < d.len() && d[b as int].chapters.len() == 0 {
        lemma_arrive_book_ahead(d, b + 1);
    }
}

/// The context of a chapter request is the join, in order, of one summary
/// for each earlier chapter of the same book.
pub proof fn chapter_context_is_earlier_chapters(d: Seq<BookModel>, m: SummarizerModel)
    requires
        m.stage == Stage::Running,
        running_position(d, m),
        pending_prompt(d, m).level == Level::Chapter,
    ensures
        pending_prompt(d, m).context == joined(m.chapter_summaries),
        m.chapter_summaries.len() == m.chapter,
{
}

/// A chapter's summary is added to the chapter context when the next chapter
/// of the same book comes up, and a new book starts with an empty context;
/// paragraph summaries leave the chapter context as it is.
pub proof fn chapter_context_carried(d: Seq<BookModel>, m: SummarizerModel, s: Seq<char>)
    requires
        m.stage == Stage::Running,
        running_position(d, m),
    ensures
        pending_prompt(d, m).level == Level::Paragraph ==> on_success(d, m, s).0.chapter_summaries
            == m.chapter_summaries,
        pending_prompt(d, m).level == Level::Paragraph ==> on_success(d, m, s).0.book == m.book,
        pending_prompt(d, m).level == Level::Paragraph ==> on_success(d, m, s).0.chapter
            == m.chapter,
        pending_prompt(d, m).level == Level::Chapter && on_success(d, m, s).0.book == m.book
            ==> on_success(d, m, s).0.chapter_summaries == m.chapter_summaries.push(s),
        pending_prompt(d, m).level == Level::Chapter && on_success(d, m, s).0.book == m.book
            ==> on_success(d, m, s).0.chapter == m.chapter + 1,
        on_success(d, m, s).0.book != m.book ==> on_success(d, m, s).0.chapter_summaries.len()
            == 0,
{
    lemma_arrive_book_ahead(d, m.book + 1);
}

} // verus!
