//! What the dashboard's endpoints answer: the search a query string stands
//! for, and the status and page of each outcome of loading the data.
use vstd::prelude::*;

use crate::dashboard::pages::{
    dashboard_error_page_text, dashboard_page_text, page_count, render_dashboard_error_page,
    render_dashboard_page, render_error_page, render_not_found_page, render_request_detail,
    render_requests_table, request_detail_text, requests_table_text, texts, not_found_page_text,
};
use crate::dashboard::pages::escape_seq;
use crate::dashboard::templates::{ERROR_PAGE_CLOSE, ERROR_PAGE_OPEN, ROWS_FAILURE};
use crate::logging::db::{opt_text, DashboardRequestRow, RequestListResult, RequestListSearch, SearchView};
use crate::text::{has_visible_char, is_blank, lemma_blank_iff_all_white, trim_seq};

verus! {

/// The dashboard's query string, every parameter optional.
#[derive(Debug)]
pub struct DashboardQuery {
    pub page: Option<u32>,
    pub page_size: Option<u32>,
    pub model: Option<String>,
    pub provider: Option<String>,
    pub has_error: Option<String>,
    pub q: Option<String>,
    pub from: Option<i64>,
    pub to: Option<i64>,
}

/// A filter value, dropped when blank.
pub open spec fn non_blank(o: Option<Seq<char>>) -> Option<Seq<char>> {
    match o {
        Some(s) => if trim_seq(s).len() > 0 {
            Some(s)
        } else {
            None
        },
        None => None,
    }
}

/// The default page size.
pub const DEFAULT_PAGE_SIZE: u32 = 20;

/// The search a query stands for: page 1 unless a later page is asked for;
/// 20 rows per page unless asked, and between 1 and 200; blank filters
/// ignored; errors only when `has_error` is exactly `1`.
pub open spec fn search_of(q: DashboardQuery) -> SearchView {
    SearchView {
        page: match q.page {
            Some(p) => if p >= 1 {
                p
            } else {
                1
            },
            None => 1,
        },
        page_size: match q.page_size {
            Some(s) => if s < 1 {
                1
            } else if s > 200 {
                200
            } else {
                s
            },
            None => DEFAULT_PAGE_SIZE,
        },
        model: non_blank(opt_text(q.model)),
        provider: non_blank(opt_text(q.provider)),
        has_error: opt_text(q.has_error) == Some(seq!['1']),
        q: non_blank(opt_text(q.q)),
        from: q.from,
        to: q.to,
    }
}

fn keep_non_blank(o: Option<String>) -> (r: Option<String>)
    ensures
        opt_text(r) == non_blank(opt_text(o)),
{
    match o {
        Some(s) => if !is_blank(s.as_str()) {
            Some(s)
        } else {
            None
        },
        None => None,
    }
}

fn is_one(o: &Option<String>) -> (r: bool)
    ensures
        r == (opt_text(*o) == Some(seq!['1'])),
{
    match o {
        Some(s) => {
            let v = crate::text::chars_of(s.as_str());
            if v.len() == 1 && v[0] == '1' {
                assert(s@ =~= seq!['1']);
                true
            } else {
                proof {
                    if s@ == seq!['1'] {
                        assert(v@[0] == '1');
                    }
                }
                false
            }
        },
        None => false,
    }
}

/// A search keeps each text filter of the query exactly when the filter
/// has a character that is not white space, and drops it otherwise: the
/// keyword typed in the search box, and the chosen model and provider,
/// reach the search unchanged unless they are missing or blank.
pub proof fn lemma_search_keeps_visible_filters(q: DashboardQuery)
    ensures
        (q.q is Some && has_visible_char(q.q->0@)) ==> search_of(q).q == Some(
            q.q->0@,
        ),
        !(q.q is Some && has_visible_char(q.q->0@)) ==> search_of(q).q is None,
        (q.model is Some && has_visible_char(q.model->0@)) ==> search_of(q).model == Some(
            q.model->0@,
        ),
        !(q.model is Some && has_visible_char(q.model->0@)) ==> search_of(q).model is None,
        (q.provider is Some && has_visible_char(q.provider->0@)) ==> search_of(q).provider == Some(
            q.provider->0@,
        ),
        !(q.provider is Some && has_visible_char(q.provider->0@)) ==> search_of(q).provider is None,
{
    if let Some(t) = q.q {
        lemma_blank_iff_all_white(t@);
    }
    if let Some(t) = q.model {
        lemma_blank_iff_all_white(t@);
    }
    if let Some(t) = q.provider {
        lemma_blank_iff_all_white(t@);
    }
}

impl DashboardQuery {
    /// The search this query stands for.
    pub fn into_search(self) -> (r: RequestListSearch)
        ensures
            r@ == search_of(self),
            (self.model is Some && has_visible_char(self.model->0@)) ==> (r.model is Some && r.model->0@
                == self.model->0@),
            !(self.model is Some && has_visible_char(self.model->0@)) ==> r.model is None,
            (self.provider is Some && has_visible_char(self.provider->0@)) ==> (r.provider is Some && r.provider->0@
                == self.provider->0@),
            !(self.provider is Some && has_visible_char(self.provider->0@)) ==> r.provider is None,
            (self.q is Some && has_visible_char(self.q->0@)) ==> (r.q is Some && r.q->0@
                == self.q->0@),
            !(self.q is Some && has_visible_char(self.q->0@)) ==> r.q is None,
    {
        proof {
            lemma_search_keeps_visible_filters(self);
        }
        let has_error = is_one(&self.has_error);
        let page = match self.page {
            Some(p) => if p >= 1 {
                p
            } else {
                1
            },
            None => 1,
        };
        let page_size = match self.page_size {
            Some(s) => if s < 1 {
                1
            } else if s > 200 {
                200
            } else {
                s
            },
            None => DEFAULT_PAGE_SIZE,
        };
        RequestListSearch {
            page,
            page_size,
            model: keep_non_blank(self.model),
            provider: keep_non_blank(self.provider),
            has_error,
            q: keep_non_blank(self.q),
            from: self.from,
            to: self.to,
        }
    }
}

/// The messages of the dashboard's error pages.
pub const DASHBOARD_FAILURE: &'static str = "Failed to load dashboard.";

pub const ERROR_DASHBOARD_FAILURE: &'static str = "Failed to load error dashboard.";

pub const DETAIL_FAILURE: &'static str = "Failed to load request details.";

/// An HTTP status and an HTML body.
#[derive(Debug)]
pub struct HtmlReply {
    pub status: u16,
    pub body: String,
}

/// The dashboard's answer, given the known models and providers, or
/// nothing when they could not be loaded.
pub fn dashboard_reply(filters: Option<(Vec<String>, Vec<String>)>, search: &RequestListSearch) -> (r:
    HtmlReply)
    ensures
        filters matches Some(f) ==> r.status == 200 && r.body@ == dashboard_page_text(
            texts(f.0@),
            texts(f.1@),
            search@,
        ),
        filters is None ==> r.status == 500 && r.body@ == ERROR_PAGE_OPEN@ + escape_seq(
            DASHBOARD_FAILURE@,
        ) + ERROR_PAGE_CLOSE@,
{
    match filters {
        Some((models, providers)) => HtmlReply {
            status: 200,
            body: render_dashboard_page(models.as_slice(), providers.as_slice(), search),
        },
        None => HtmlReply { status: 500, body: render_error_page(DASHBOARD_FAILURE) },
    }
}

/// The error-log page's answer, given the known models and providers, or
/// nothing when they could not be loaded.
pub fn dashboard_errors_reply(
    filters: Option<(Vec<String>, Vec<String>)>,
    search: &RequestListSearch,
) -> (r: HtmlReply)
    ensures
        filters matches Some(f) ==> r.status == 200 && r.body@ == dashboard_error_page_text(
            texts(f.0@),
            texts(f.1@),
            search@,
        ),
        filters is None ==> r.status == 500 && r.body@ == ERROR_PAGE_OPEN@ + escape_seq(
            ERROR_DASHBOARD_FAILURE@,
        ) + ERROR_PAGE_CLOSE@,
{
    match filters {
        Some((models, providers)) => HtmlReply {
            status: 200,
            body: render_dashboard_error_page(models.as_slice(), providers.as_slice(), search),
        },
        None => HtmlReply { status: 500, body: render_error_page(ERROR_DASHBOARD_FAILURE) },
    }
}

/// The table fragment's answer, given a page of results, or nothing when
/// they could not be loaded.
pub fn requests_rows_reply(result: Option<RequestListResult>, search: &RequestListSearch) -> (r:
    HtmlReply)
    requires
        result matches Some(res) ==> (search.page_size > 0 || res.total_count == 0)
            && res.total_count != i64::MIN && (search.page < page_count(
            res.total_count as int,
            search.page_size as int,
        ) ==> search.page < u32::MAX),
    ensures
        result matches Some(res) ==> r.status == 200 && r.body@ == requests_table_text(
            res.rows@,
            res.total_count as int,
            search@,
        ),
        result is None ==> r.status == 500 && r.body@ == ROWS_FAILURE@,
{
    match result {
        Some(res) => HtmlReply { status: 200, body: render_requests_table(&res, search) },
        None => HtmlReply { status: 500, body: String::from_str(ROWS_FAILURE) },
    }
}

/// The detail page's answer, given the looked-up row (`Ok(None)` when no
/// request has that id, `Err` when the lookup failed).
pub fn request_detail_reply(lookup: Result<Option<DashboardRequestRow>, ()>, id: &str) -> (r:
    HtmlReply)
    ensures
        lookup matches Ok(Some(row)) ==> r.status == 200 && r.body@ == request_detail_text(row),
        lookup matches Ok(None) ==> r.status == 404 && r.body@ == not_found_page_text(id@),
        lookup is Err ==> r.status == 500 && r.body@ == ERROR_PAGE_OPEN@ + escape_seq(
            DETAIL_FAILURE@,
        ) + ERROR_PAGE_CLOSE@,
{
    match lookup {
        Ok(Some(row)) => HtmlReply { status: 200, body: render_request_detail(&row) },
        Ok(None) => HtmlReply { status: 404, body: render_not_found_page(id) },
        Err(()) => HtmlReply { status: 500, body: render_error_page(DETAIL_FAILURE) },
    }
}

} // verus!
