//! The request log: the rows the dashboard shows, the search over them, the
//! SQL filter that a search stands for, paging, and the retry policy for
//! writes that meet a busy database.
use vstd::prelude::*;

use crate::text::{has_infix, text_contains};

verus! {

/// One logged request as the dashboard shows it.
#[derive(Debug)]
pub struct DashboardRequestRow {
    pub id: String,
    /// Seconds (or, for large values, milliseconds) since the Unix epoch.
    pub created_at: i64,
    pub model: String,
    pub provider: String,
    pub request_json: String,
    pub response_text: Option<String>,
    pub prompt_tokens: Option<i64>,
    pub completion_tokens: Option<i64>,
    pub total_tokens: Option<i64>,
    pub latency_ms: Option<i64>,
    /// The cost column as displayed: six decimal places, or `-` when unknown.
    pub cost_text: String,
    pub error: Option<String>,
}

/// A search over the request log.
#[derive(Debug)]
pub struct RequestListSearch {
    /// One-based page number.
    pub page: u32,
    pub page_size: u32,
    pub model: Option<String>,
    pub provider: Option<String>,
    /// Only requests that ended in an error.
    pub has_error: bool,
    /// A keyword looked for in the request and the response.
    pub q: Option<String>,
    pub from: Option<i64>,
    pub to: Option<i64>,
}

/// The abstract search: texts in place of strings.
pub struct SearchView {
    pub page: u32,
    pub page_size: u32,
    pub model: Option<Seq<char>>,
    pub provider: Option<Seq<char>>,
    pub has_error: bool,
    pub q: Option<Seq<char>>,
    pub from: Option<i64>,
    pub to: Option<i64>,
}

impl View for RequestListSearch {
    type V = SearchView;

    open spec fn view(&self) -> SearchView {
        SearchView {
            page: self.page,
            page_size: self.page_size,
            model: opt_text(self.model),
            provider: opt_text(self.provider),
            has_error: self.has_error,
            q: opt_text(self.q),
            from: self.from,
            to: self.to,
        }
    }
}

/// One page of search results and the number of all matching requests.
#[derive(Debug)]
pub struct RequestListResult {
    pub rows: Vec<DashboardRequestRow>,
    pub total_count: i64,
}

/// The text of an optional string.
pub open spec fn opt_text(o: Option<String>) -> Option<Seq<char>> {
    match o {
        Some(s) => Some(s@),
        None => None,
    }
}

/// An exact copy of an optional string.
pub fn copy_opt(o: &Option<String>) -> (r: Option<String>)
    ensures
        opt_text(r) == opt_text(*o),
{
    match o {
        Some(s) => Some(s.clone()),
        None => None,
    }
}

/// A search restricted to requests that ended in an error.
pub open spec fn errors_only_view(s: SearchView) -> SearchView {
    SearchView { has_error: true, ..s }
}

impl RequestListSearch {
    /// The same search, restricted to requests that ended in an error.
    pub fn errors_only(&self) -> (r: RequestListSearch)
        ensures
            r@ == errors_only_view(self@),
    {
        RequestListSearch {
            page: self.page,
            page_size: self.page_size,
            model: copy_opt(&self.model),
            provider: copy_opt(&self.provider),
            has_error: true,
            q: copy_opt(&self.q),
            from: self.from,
            to: self.to,
        }
    }
}

/// A piece of an SQL statement: literal text, or a value bound to a
/// placeholder.
#[derive(Debug)]
pub enum SqlPiece {
    Text(String),
    BindText(String),
    BindInt(i64),
}

/// The abstract piece: literal text, a bound text or a bound integer.
pub enum SqlPieceView {
    Text(Seq<char>),
    BindText(Seq<char>),
    BindInt(int),
}

pub open spec fn piece_view(p: SqlPiece) -> SqlPieceView {
    match p {
        SqlPiece::Text(t) => SqlPieceView::Text(t@),
        SqlPiece::BindText(t) => SqlPieceView::BindText(t@),
        SqlPiece::BindInt(i) => SqlPieceView::BindInt(i as int),
    }
}

pub open spec fn pieces_view(v: Seq<SqlPiece>) -> Seq<SqlPieceView> {
    v.map_values(|p: SqlPiece| piece_view(p))
}

pub const MODEL_CLAUSE: &'static str = " AND model = ";

pub const PROVIDER_CLAUSE: &'static str = " AND provider = ";

pub const ERROR_CLAUSE: &'static str = " AND error IS NOT NULL AND trim(error) != ''";

pub const KEYWORD_OPEN: &'static str = " AND (request_json LIKE ";

pub const KEYWORD_OR: &'static str = " OR response_text LIKE ";

pub const KEYWORD_CLOSE: &'static str = ")";

pub const FROM_CLAUSE: &'static str = " AND created_at >= ";

pub const TO_CLAUSE: &'static str = " AND created_at <= ";

/// The `LIKE` pattern that matches texts containing `term`.
pub open spec fn like_pattern(term: Seq<char>) -> Seq<char> {
    seq!['%'] + term + seq!['%']
}

/// The conditions a search adds to `WHERE 1=1`, in order: model, provider,
/// errors only, keyword (in the request or the response), time range.
pub open spec fn filter_pieces(s: RequestListSearch) -> Seq<SqlPieceView> {
    let model = match s.model {
        Some(m) => seq![SqlPieceView::Text(MODEL_CLAUSE@), SqlPieceView::BindText(m@)],
        None => seq![],
    };
    let provider = match s.provider {
        Some(p) => seq![SqlPieceView::Text(PROVIDER_CLAUSE@), SqlPieceView::BindText(p@)],
        None => seq![],
    };
    let errors = if s.has_error {
        seq![SqlPieceView::Text(ERROR_CLAUSE@)]
    } else {
        seq![]
    };
    let keyword = match s.q {
        Some(q) => seq![
            SqlPieceView::Text(KEYWORD_OPEN@),
            SqlPieceView::BindText(like_pattern(q@)),
            SqlPieceView::Text(KEYWORD_OR@),
            SqlPieceView::BindText(like_pattern(q@)),
            SqlPieceView::Text(KEYWORD_CLOSE@),
        ],
        None => seq![],
    };
    let from = match s.from {
        Some(f) => seq![SqlPieceView::Text(FROM_CLAUSE@), SqlPieceView::BindInt(f as int)],
        None => seq![],
    };
    let to = match s.to {
        Some(t) => seq![SqlPieceView::Text(TO_CLAUSE@), SqlPieceView::BindInt(t as int)],
        None => seq![],
    };
    model + provider + errors + keyword + from + to
}

fn text_piece(t: &str) -> (r: SqlPiece)
    ensures
        piece_view(r) == SqlPieceView::Text(t@),
{
    SqlPiece::Text(String::from_str(t))
}

fn like_of(term: &String) -> (r: String)
    ensures
        r@ == like_pattern(term@),
{
    let mut r = String::new();
    crate::text::push_char(&mut r, '%');
    r.append(term.as_str());
    crate::text::push_char(&mut r, '%');
    assert(r@ =~= like_pattern(term@));
    r
}

/// The SQL conditions of a search, as pieces to append to a query that
/// ends in `WHERE 1=1`.
pub fn filter_sql(search: &RequestListSearch) -> (r: Vec<SqlPiece>)
    ensures
        pieces_view(r@) == filter_pieces(*search),
{
    let mut r: Vec<SqlPiece> = Vec::new();
    let ghost mut expect: Seq<SqlPieceView> = seq![];
    if let Some(m) = &search.model {
        r.push(text_piece(MODEL_CLAUSE));
        r.push(SqlPiece::BindText(m.clone()));
        proof {
            expect = expect + seq![SqlPieceView::Text(MODEL_CLAUSE@), SqlPieceView::BindText(m@)];
        }
    }
    assert(pieces_view(r@) =~= expect);
    if let Some(p) = &search.provider {
        r.push(text_piece(PROVIDER_CLAUSE));
        r.push(SqlPiece::BindText(p.clone()));
        proof {
            expect = expect + seq![SqlPieceView::Text(PROVIDER_CLAUSE@), SqlPieceView::BindText(p@)];
        }
    }
    assert(pieces_view(r@) =~= expect);
    if search.has_error {
        r.push(text_piece(ERROR_CLAUSE));
        proof {
            expect = expect + seq![SqlPieceView::Text(ERROR_CLAUSE@)];
        }
    }
    assert(pieces_view(r@) =~= expect);
    if let Some(q) = &search.q {
        let like = like_of(q);
        r.push(text_piece(KEYWORD_OPEN));
        r.push(SqlPiece::BindText(like.clone()));
        r.push(text_piece(KEYWORD_OR));
        r.push(SqlPiece::BindText(like));
        r.push(text_piece(KEYWORD_CLOSE));
        proof {
            expect = expect + seq![
                SqlPieceView::Text(KEYWORD_OPEN@),
                SqlPieceView::BindText(like_pattern(q@)),
                SqlPieceView::Text(KEYWORD_OR@),
                SqlPieceView::BindText(like_pattern(q@)),
                SqlPieceView::Text(KEYWORD_CLOSE@),
            ];
        }
    }
    assert(pieces_view(r@) =~= expect);
    if let Some(f) = search.from {
        r.push(text_piece(FROM_CLAUSE));
        r.push(SqlPiece::BindInt(f));
        proof {
            expect = expect + seq![SqlPieceView::Text(FROM_CLAUSE@), SqlPieceView::BindInt(f as int)];
        }
    }
    assert(pieces_view(r@) =~= expect);
    if let Some(t) = search.to {
        r.push(text_piece(TO_CLAUSE));
        r.push(SqlPiece::BindInt(t));
        proof {
            expect = expect + seq![SqlPieceView::Text(TO_CLAUSE@), SqlPieceView::BindInt(t as int)];
        }
    }
    assert(pieces_view(r@) =~= expect);
    assert(expect =~= filter_pieces(*search));
    r
}

/// The most rows one page may hold.
pub const MAX_PAGE_SIZE: u32 = 200;

/// The `LIMIT` and `OFFSET` of a search: at most 200 rows, skipping the
/// rows of the earlier pages.
pub open spec fn page_limit(s: RequestListSearch) -> int {
    if s.page_size <= MAX_PAGE_SIZE {
        s.page_size as int
    } else {
        MAX_PAGE_SIZE as int
    }
}

pub open spec fn page_offset(s: RequestListSearch) -> int {
    (if s.page >= 1 {
        s.page - 1
    } else {
        0
    }) * page_limit(s)
}

/// The `(LIMIT, OFFSET)` pair of a search.
pub fn page_window(search: &RequestListSearch) -> (r: (i64, i64))
    ensures
        r.0 == page_limit(*search),
        r.1 == page_offset(*search),
{
    let limit: i64 = if search.page_size <= MAX_PAGE_SIZE {
        search.page_size as i64
    } else {
        MAX_PAGE_SIZE as i64
    };
    let skipped: i64 = if search.page >= 1 {
        (search.page - 1) as i64
    } else {
        0
    };
    assert(0 <= skipped * limit <= 4294967295 * 200) by (nonlinear_arith)
        requires
            0 <= skipped <= 4294967295,
            0 <= limit <= 200,
    ;
    (limit, skipped * limit)
}

/// How one attempt to write a log record ended.
#[derive(Debug, Clone, Copy, PartialEq, Eq)]
pub enum WriteOutcome {
    Written,
    /// The database was busy or locked.
    Busy,
    Failed,
}

/// What to do after an attempt to write a log record.
#[derive(Debug, Clone, Copy, PartialEq, Eq)]
pub enum PersistAction {
    /// The record is stored.
    Done,
    /// Wait this many milliseconds, then make the next attempt.
    RetryAfter(u64),
    /// Stop trying; the record is lost.
    GiveUp,
}

/// The number of retries after the first attempt.
pub const MAX_RETRIES: usize = 3;

/// The wait before retry number `attempt + 1`: 50 ms, doubled each time.
pub open spec fn retry_delay(attempt: nat) -> nat
    decreases attempt,
{
    if attempt == 0 {
        50
    } else {
        2 * retry_delay((attempt - 1) as nat)
    }
}

/// The decision after attempt number `attempt` (counting from zero) ended
/// with `outcome`: a busy database is retried, up to three times, after a
/// growing wait; anything else ends the write.
pub open spec fn persist_decision(attempt: nat, outcome: WriteOutcome) -> PersistAction {
    match outcome {
        WriteOutcome::Written => PersistAction::Done,
        WriteOutcome::Busy => if attempt < MAX_RETRIES {
            PersistAction::RetryAfter(retry_delay(attempt) as u64)
        } else {
            PersistAction::GiveUp
        },
        WriteOutcome::Failed => PersistAction::GiveUp,
    }
}

/// Decides what follows a write attempt.
pub fn persist_next(attempt: usize, outcome: WriteOutcome) -> (r: PersistAction)
    requires
        attempt <= MAX_RETRIES,
    ensures
        r == persist_decision(attempt as nat, outcome),
{
    match outcome {
        WriteOutcome::Written => PersistAction::Done,
        WriteOutcome::Busy => {
            if attempt < MAX_RETRIES {
                let delay: u64 = if attempt == 0 {
                    50
                } else if attempt == 1 {
                    100
                } else {
                    200
                };
                assert(retry_delay(0) == 50);
                assert(retry_delay(1) == 100);
                assert(retry_delay(2) == 200);
                PersistAction::RetryAfter(delay)
            } else {
                PersistAction::GiveUp
            }
        },
        WriteOutcome::Failed => PersistAction::GiveUp,
    }
}

/// A write makes at most four attempts: the last allowed attempt never
/// asks for another, and the waits before the retries are 50, 100 and
/// 200 milliseconds.
pub proof fn lemma_persist_attempts_bounded(outcome: WriteOutcome)
    ensures
        !(persist_decision(MAX_RETRIES as nat, outcome) is RetryAfter),
        retry_delay(0) == 50,
        retry_delay(1) == 100,
        retry_delay(2) == 200,
{
    assert(retry_delay(0) == 50);
    assert(retry_delay(1) == 100);
    assert(retry_delay(2) == 200);
}

/// The SQLite result codes of a busy (`5`) or locked (`6`) database.
pub open spec fn is_busy_code(code: Seq<char>) -> bool {
    code == seq!['5'] || code == seq!['6']
}

/// The message SQLite gives for a locked database.
pub const LOCKED_MESSAGE: &'static str = "database is locked";

/// Whether a failed write met a busy or locked database: by its SQLite code,
/// or by the words of its message.
pub fn is_sqlite_busy(code: &Option<String>, message: &str) -> (r: bool)
    ensures
        r == ((opt_text(*code) matches Some(c) && is_busy_code(c)) || has_infix(
            message@,
            LOCKED_MESSAGE@,
        )),
{
    let by_code = match code {
        Some(c) => {
            let v = crate::text::chars_of(c.as_str());
            v.len() == 1 && (v[0] == '5' || v[0] == '6')
        },
        None => false,
    };
    proof {
        if let Some(c) = code {
            if c@.len() == 1 {
                if c@[0] == '5' {
                    assert(c@ =~= seq!['5']);
                }
                if c@[0] == '6' {
                    assert(c@ =~= seq!['6']);
                }
            } else {
                assert(c@.len() != seq!['5'].len());
            }
        }
    }
    by_code || text_contains(message, LOCKED_MESSAGE)
}

} // verus!
