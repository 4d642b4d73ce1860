use chrono::{DateTime, FixedOffset, TimeZone, Utc};
use openrouter_local::dashboard::handlers::{
    dashboard_errors_reply, dashboard_reply, request_detail_reply, requests_rows_reply, DashboardQuery,
};
use openrouter_local::dashboard::pages::{
    escape_html, fmt_opt_i64, fmt_time_gmt7, render_dashboard_error_page, render_dashboard_page,
    render_error_page, render_error_preview, render_not_found_page, render_request_detail,
    render_request_row, render_requests_table, render_status,
};
use openrouter_local::logging::db::{DashboardRequestRow, RequestListResult, RequestListSearch};
use serde_json::Value;

// The pages as the dashboard has always rendered them, written with
// `format!`, to hold the library's output against.
fn expected_escape_html(input: &str) -> String {
    input
        .replace('&', "&amp;")
        .replace('<', "&lt;")
        .replace('>', "&gt;")
        .replace('"', "&quot;")
        .replace('\'', "&#39;")
}


fn expected_status(err: &Option<String>) -> &'static str {
    if err.as_deref().is_some_and(|s| !s.trim().is_empty()) {
        "Error"
    } else {
        "OK"
    }
}

fn expected_error_preview(err: &Option<String>) -> String {
    match err.as_deref().map(str::trim).filter(|s| !s.is_empty()) {
        Some(text) => {
            let mut preview: String = text.chars().take(120).collect();
            if text.chars().count() > 120 {
                preview.push('…');
            }
            expected_escape_html(&preview)
        }
        None => "-".to_string(),
    }
}

fn expected_opt_i64(val: Option<i64>) -> String {
    val.map(|v| v.to_string())
        .unwrap_or_else(|| "-".to_string())
}


fn expected_time_gmt7(created_at: i64) -> String {
    let secs = if created_at > 10_000_000_000 {
        created_at / 1000
    } else {
        created_at
    };

    let dt_utc: DateTime<Utc> = Utc.timestamp_opt(secs, 0).single().unwrap_or_else(|| {
        Utc.timestamp_opt(0, 0)
            .single()
            .expect("epoch must be valid")
    });
    let tz = FixedOffset::east_opt(7 * 3600).expect("GMT+7 offset should be valid");
    dt_utc
        .with_timezone(&tz)
        .format("%Y-%m-%d %H:%M:%S")
        .to_string()
}


fn expected_dashboard_page(
    models: &[String],
    providers: &[String],
    search: &RequestListSearch,
) -> String {
    let model_options = models
        .iter()
        .map(|m| {
            let selected = if search.model.as_deref() == Some(m.as_str()) {
                "selected"
            } else {
                ""
            };
            format!(
                "<option value=\"{}\" {}>{}</option>",
                expected_escape_html(m),
                selected,
                expected_escape_html(m)
            )
        })
        .collect::<Vec<_>>()
        .join("");

    let provider_options = providers
        .iter()
        .map(|p| {
            let selected = if search.provider.as_deref() == Some(p.as_str()) {
                "selected"
            } else {
                ""
            };
            format!(
                "<option value=\"{}\" {}>{}</option>",
                expected_escape_html(p),
                selected,
                expected_escape_html(p)
            )
        })
        .collect::<Vec<_>>()
        .join("");

    format!(
        r##"<!doctype html>
<html lang="en">
<head>
  <meta charset="UTF-8" />
  <meta name="viewport" content="width=device-width, initial-scale=1.0" />
  <title>OpenRouterLocal Dashboard</title>
  <script src="https://cdn.tailwindcss.com"></script>
  <script src="https://unpkg.com/htmx.org/dist/htmx.min.js"></script>
</head>
<body class="bg-slate-100 text-slate-900 min-h-screen">
  <main class="max-w-7xl mx-auto p-6 space-y-4">
    <div class="flex items-center justify-between">
      <h1 class="text-2xl font-bold">OpenRouterLocal Dashboard</h1>
      <a href="/dashboard/errors" class="text-sm text-red-700 hover:underline">View error logs</a>
    </div>

    <form id="filters"
      class="bg-white rounded-lg shadow p-4 grid grid-cols-1 md:grid-cols-6 gap-3"
      hx-get="/dashboard/partials/requests"
      hx-target="#table-wrapper"
      hx-trigger="change, keyup changed delay:300ms from:#q"
      hx-swap="innerHTML">

      <input type="hidden" name="page" value="1" />

      <div>
        <label class="block text-sm font-medium">Model</label>
        <select name="model" class="w-full border rounded px-2 py-1">
          <option value="">All</option>
          {model_options}
        </select>
      </div>

      <div>
        <label class="block text-sm font-medium">Provider</label>
        <select name="provider" class="w-full border rounded px-2 py-1">
          <option value="">All</option>
          {provider_options}
        </select>
      </div>

      <div class="flex items-end">
        <label class="inline-flex items-center gap-2">
          <input type="checkbox" name="has_error" value="1" {checked} />
          <span class="text-sm">Only errors</span>
        </label>
      </div>

      <div>
        <label class="block text-sm font-medium">Search</label>
        <input id="q" name="q" value="{q}" placeholder="keyword" class="w-full border rounded px-2 py-1" />
      </div>

      <div>
        <label class="block text-sm font-medium">Page size</label>
        <select name="page_size" class="w-full border rounded px-2 py-1">
          <option value="20" {ps20}>20</option>
          <option value="50" {ps50}>50</option>
          <option value="100" {ps100}>100</option>
        </select>
      </div>
    </form>

    <div id="table-wrapper"
      class="bg-white rounded-lg shadow overflow-hidden"
      hx-get="/dashboard/partials/requests?page={page}&page_size={page_size}"
      hx-include="#filters"
      hx-trigger="load"
      hx-swap="innerHTML">
      <div class="p-4 text-sm text-slate-500">Loading...</div>
    </div>
  </main>
</body>
</html>"##,
        model_options = model_options,
        provider_options = provider_options,
        checked = if search.has_error { "checked" } else { "" },
        q = expected_escape_html(search.q.as_deref().unwrap_or("")),
        ps20 = if search.page_size == 20 {
            "selected"
        } else {
            ""
        },
        ps50 = if search.page_size == 50 {
            "selected"
        } else {
            ""
        },
        ps100 = if search.page_size == 100 {
            "selected"
        } else {
            ""
        },
        page = search.page,
        page_size = search.page_size,
    )
}


fn expected_requests_table(result: &RequestListResult, search: &RequestListSearch) -> String {
    let rows = if result.rows.is_empty() {
        "<tr><td class=\"p-3 text-center text-slate-500\" colspan=\"9\">No requests found</td></tr>"
            .to_string()
    } else {
        result
            .rows
            .iter()
            .map(expected_request_row)
            .collect::<Vec<_>>()
            .join("")
    };

    let page_count = if result.total_count == 0 {
        1
    } else {
        ((result.total_count - 1) / i64::from(search.page_size) + 1) as i64
    };

    let prev_page = if search.page > 1 { search.page - 1 } else { 1 };
    let next_page = if (search.page as i64) < page_count {
        search.page + 1
    } else {
        search.page
    };

    format!(
        r##"<div>
<table class="w-full text-sm">
  <thead class="bg-slate-50 text-left">
    <tr>
      <th class="p-3">Time</th>
      <th class="p-3">Model</th>
      <th class="p-3">Provider</th>
      <th class="p-3">Tokens (p/c/t)</th>
      <th class="p-3">Latency (ms)</th>
      <th class="p-3">Cost</th>
      <th class="p-3">Status</th>
      <th class="p-3">Error</th>
      <th class="p-3">Action</th>
    </tr>
  </thead>
  <tbody id="req-rows" class="divide-y">
    {rows}
  </tbody>
</table>
<div class="p-3 flex items-center justify-between border-t bg-slate-50">
  <div class="text-xs text-slate-600">Total: {total_count} | Page {page} of {page_count}</div>
  <div class="flex gap-2">
    <button class="px-3 py-1 rounded border bg-white disabled:opacity-50" {prev_disabled}
      hx-get="/dashboard/partials/requests?page={prev_page}"
      hx-include="#filters"
      hx-target="#table-wrapper"
      hx-swap="innerHTML">Prev</button>
    <button class="px-3 py-1 rounded border bg-white disabled:opacity-50" {next_disabled}
      hx-get="/dashboard/partials/requests?page={next_page}"
      hx-include="#filters"
      hx-target="#table-wrapper"
      hx-swap="innerHTML">Next</button>
  </div>
</div>
</div>"##,
        rows = rows,
        total_count = result.total_count,
        page = search.page,
        page_count = page_count,
        prev_disabled = if search.page <= 1 { "disabled" } else { "" },
        next_disabled = if (search.page as i64) >= page_count {
            "disabled"
        } else {
            ""
        },
        prev_page = prev_page,
        next_page = next_page,
    )
}


fn expected_request_row(row: &DashboardRequestRow) -> String {
    format!(
        r#"<tr>
<td class="p-3">{created_at}</td>
<td class="p-3">{model}</td>
<td class="p-3">{provider}</td>
<td class="p-3">{prompt}/{completion}/{total}</td>
<td class="p-3">{latency}</td>
<td class="p-3">{cost}</td>
<td class="p-3">{status}</td>
<td class="p-3 text-xs text-red-700">{error_preview}</td>
<td class="p-3"><a class="text-blue-600 hover:underline" href="/dashboard/requests/{id}">View</a></td>
</tr>"#,
        created_at = expected_time_gmt7(row.created_at),
        model = expected_escape_html(&row.model),
        provider = expected_escape_html(&row.provider),
        prompt = expected_opt_i64(row.prompt_tokens),
        completion = expected_opt_i64(row.completion_tokens),
        total = expected_opt_i64(row.total_tokens),
        latency = expected_opt_i64(row.latency_ms),
        cost = row.cost_text.clone(),
        status = expected_status(&row.error),
        error_preview = expected_error_preview(&row.error),
        id = expected_escape_html(&row.id),
    )
}


fn expected_request_detail(row: &DashboardRequestRow) -> String {
    let parsed = serde_json::from_str::<Value>(&row.request_json)
        .map(|v| serde_json::to_string_pretty(&v).unwrap_or_else(|_| row.request_json.clone()))
        .unwrap_or_else(|_| row.request_json.clone());
    let response = row.response_text.clone().unwrap_or_default();

    format!(
        r##"<!doctype html>
<html lang="en">
<head>
  <meta charset="UTF-8" />
  <meta name="viewport" content="width=device-width, initial-scale=1.0" />
  <title>Request {id}</title>
  <script src="https://cdn.tailwindcss.com"></script>
</head>
<body class="bg-slate-100 text-slate-900 min-h-screen">
  <main class="max-w-6xl mx-auto p-6 space-y-4">
    <a href="/dashboard" class="text-blue-600 hover:underline">← Back to dashboard</a>
    <h1 class="text-2xl font-bold">Request {id}</h1>

    <div class="bg-white rounded shadow p-4 grid grid-cols-1 md:grid-cols-3 gap-2 text-sm">
      <div><span class="font-semibold">Time:</span> {created_at}</div>
      <div><span class="font-semibold">Model:</span> {model}</div>
      <div><span class="font-semibold">Provider:</span> {provider}</div>
      <div><span class="font-semibold">Latency:</span> {latency} ms</div>
      <div><span class="font-semibold">Tokens:</span> {prompt}/{completion}/{total}</div>
      <div><span class="font-semibold">Cost:</span> {cost}</div>
      <div><span class="font-semibold">Status:</span> {status}</div>
    </div>

    <section class="bg-white rounded shadow p-4">
      <div class="flex items-center justify-between mb-2">
        <h2 class="text-lg font-semibold">Request JSON</h2>
        <button class="px-2 py-1 border rounded text-sm" onclick="copyText('request-json')">Copy</button>
      </div>
      <pre id="request-json" class="bg-slate-50 p-3 rounded overflow-x-auto text-xs">{request_json}</pre>
    </section>

    <section class="bg-white rounded shadow p-4">
      <div class="flex items-center justify-between mb-2">
        <h2 class="text-lg font-semibold">Response Text</h2>
        <button class="px-2 py-1 border rounded text-sm" onclick="copyText('response-text')">Copy</button>
      </div>
      <pre id="response-text" class="bg-slate-50 p-3 rounded overflow-x-auto text-xs whitespace-pre-wrap">{response}</pre>
    </section>

    {error_section}
  </main>
  <script>
    function copyText(id) {{
      const el = document.getElementById(id);
      if (!el) return;
      navigator.clipboard.writeText(el.textContent || '');
    }}
  </script>
</body>
</html>"##,
        id = expected_escape_html(&row.id),
        created_at = expected_time_gmt7(row.created_at),
        model = expected_escape_html(&row.model),
        provider = expected_escape_html(&row.provider),
        latency = expected_opt_i64(row.latency_ms),
        prompt = expected_opt_i64(row.prompt_tokens),
        completion = expected_opt_i64(row.completion_tokens),
        total = expected_opt_i64(row.total_tokens),
        cost = row.cost_text.clone(),
        status = expected_status(&row.error),
        request_json = expected_escape_html(&parsed),
        response = expected_escape_html(&response),
        error_section = row.error.as_ref().map(|err| format!(
            "<section class=\"bg-red-50 border border-red-200 rounded shadow p-4\"><h2 class=\"text-lg font-semibold text-red-700\">Error</h2><pre class=\"mt-2 text-xs whitespace-pre-wrap\">{}</pre></section>",
            expected_escape_html(err)
        )).unwrap_or_default(),
    )
}


fn search(page: u32, page_size: u32) -> RequestListSearch {
    RequestListSearch {
        page,
        page_size,
        model: Some("gpt-4o".to_string()),
        provider: None,
        has_error: false,
        q: Some("say \"hi\" & <bye>".to_string()),
        from: None,
        to: None,
    }
}

fn copy_search(s: &RequestListSearch) -> RequestListSearch {
    RequestListSearch {
        page: s.page,
        page_size: s.page_size,
        model: s.model.clone(),
        provider: s.provider.clone(),
        has_error: s.has_error,
        q: s.q.clone(),
        from: s.from,
        to: s.to,
    }
}

fn row(id: &str, error: Option<&str>) -> DashboardRequestRow {
    DashboardRequestRow {
        id: id.to_string(),
        created_at: 1_700_000_000,
        model: "gpt-4o".to_string(),
        provider: "open<ai>".to_string(),
        request_json: "[{\"role\":\"user\",\"content\":\"hi\"}]".to_string(),
        response_text: Some("hello 'there'".to_string()),
        prompt_tokens: Some(5),
        completion_tokens: None,
        total_tokens: Some(-3),
        latency_ms: Some(1234),
        cost_text: "0.000075".to_string(),
        error: error.map(str::to_string),
    }
}

fn copy_row(r: &DashboardRequestRow) -> DashboardRequestRow {
    DashboardRequestRow {
        id: r.id.clone(),
        created_at: r.created_at,
        model: r.model.clone(),
        provider: r.provider.clone(),
        request_json: r.request_json.clone(),
        response_text: r.response_text.clone(),
        prompt_tokens: r.prompt_tokens,
        completion_tokens: r.completion_tokens,
        total_tokens: r.total_tokens,
        latency_ms: r.latency_ms,
        cost_text: r.cost_text.clone(),
        error: r.error.clone(),
    }
}

#[test]
fn escapes_markup_characters() {
    assert_eq!(escape_html("a & b < c > d \" e ' f"), "a &amp; b &lt; c &gt; d &quot; e &#39; f");
    assert_eq!(escape_html("&amp;"), "&amp;amp;");
    assert_eq!(escape_html("plain ünïcode"), "plain ünïcode");
    for s in ["", "<script>alert('x')</script>", "&&\"\"''<<>>"] {
        let e = escape_html(s);
        assert_eq!(e, expected_escape_html(s));
        assert!(!e.contains('<') && !e.contains('>') && !e.contains('"') && !e.contains('\''));
    }
}

#[test]
fn status_and_error_preview_cells() {
    let long: String = "x".repeat(130);
    for err in [None, Some(String::new()), Some("   ".to_string()), Some(" boom <1> ".to_string()), Some(long.clone()), Some("é".repeat(120))] {
        assert_eq!(render_status(&err), expected_status(&err));
        assert_eq!(render_error_preview(&err), expected_error_preview(&err));
    }
    assert_eq!(render_status(&Some(" x ".to_string())), "Error");
    assert_eq!(render_status(&Some(" \n".to_string())), "OK");
    assert_eq!(render_error_preview(&None), "-");
    assert_eq!(render_error_preview(&Some(long)), format!("{}…", "x".repeat(120)));
}

#[test]
fn integer_and_time_cells() {
    assert_eq!(fmt_opt_i64(None), "-");
    assert_eq!(fmt_opt_i64(Some(-17)), "-17");
    assert_eq!(fmt_time_gmt7(0), "1970-01-01 07:00:00");
    assert_eq!(fmt_time_gmt7(1_700_000_000), "2023-11-15 05:13:20");
    assert_eq!(fmt_time_gmt7(1_700_000_000_000), "2023-11-15 05:13:20");
    for t in [0, 1, 10_000_000_000, 10_000_000_001, -5, i64::MAX, i64::MIN] {
        assert_eq!(fmt_time_gmt7(t), expected_time_gmt7(t), "{t}");
    }
}

#[test]
fn dashboard_page_matches_the_template() {
    let models = vec!["gpt-4o".to_string(), "m<1>".to_string()];
    let providers = vec!["openai".to_string()];
    for (page, size) in [(1, 20), (3, 50), (2, 100), (7, 7)] {
        let mut s = search(page, size);
        assert_eq!(render_dashboard_page(&models, &providers, &s), expected_dashboard_page(&models, &providers, &s));
        s.has_error = true;
        s.provider = Some("openai".to_string());
        s.q = None;
        assert_eq!(render_dashboard_page(&models, &providers, &s), expected_dashboard_page(&models, &providers, &s));
    }
}

#[test]
fn error_dashboard_is_the_forced_dashboard() {
    let models = vec!["gpt-4o".to_string()];
    let providers = vec!["openai".to_string(), "cli".to_string()];
    let s = search(2, 20);
    let mut forced = copy_search(&s);
    forced.has_error = true;
    let expected = expected_dashboard_page(&models, &providers, &forced)
        .replace("OpenRouterLocal Dashboard", "OpenRouterLocal Error Logs")
        .replace("Only errors", "Only errors (forced)")
        .replace(
            "name=\"has_error\" value=\"1\" checked",
            "name=\"has_error\" value=\"1\" checked disabled",
        );
    let page = render_dashboard_error_page(&models, &providers, &s);
    assert_eq!(page, expected);
    assert!(page.contains("<title>OpenRouterLocal Error Logs</title>"));
    assert!(page.contains("checked disabled"));
}

#[test]
fn requests_table_matches_the_template() {
    let rows = vec![row("a1", None), row("b<2>", Some("  upstream failed  ")), row("c", Some(" "))];
    for (total, page, size) in [(0i64, 1u32, 20u32), (3, 1, 20), (45, 2, 20), (45, 3, 20), (40, 2, 20), (1, 5, 1)] {
        let s = search(page, size);
        let result = RequestListResult { rows: rows.iter().map(copy_row).collect(), total_count: total };
        assert_eq!(render_requests_table(&result, &s), expected_requests_table(&result, &s));
        let empty = RequestListResult { rows: vec![], total_count: total };
        assert_eq!(render_requests_table(&empty, &s), expected_requests_table(&empty, &s));
    }
    let s = search(2, 20);
    let t = render_requests_table(&RequestListResult { rows: vec![], total_count: 45 }, &s);
    assert!(t.contains("Total: 45 | Page 2 of 3"));
    assert!(t.contains("No requests found"));
}

#[test]
fn request_row_and_detail_match_the_template() {
    for err in [None, Some("bad & worse"), Some("")] {
        let r = row("id-1", err);
        assert_eq!(render_request_row(&r), expected_request_row(&r));
        assert_eq!(render_request_detail(&r), expected_request_detail(&r));
    }
    let mut r = row("x", None);
    r.request_json = "not json {".to_string();
    r.response_text = None;
    assert_eq!(render_request_detail(&r), expected_request_detail(&r));
    let pretty = render_request_detail(&row("y", None));
    assert!(pretty.contains("[\n  {\n    &quot;content&quot;: &quot;hi&quot;"));
}

#[test]
fn not_found_and_error_pages() {
    assert!(render_not_found_page("<x>").contains("No request found for id <code>&lt;x&gt;</code>."));
    assert!(render_error_page("Failed to load dashboard.").contains("<p class=\"mt-2 text-red-700\">Failed to load dashboard.</p>"));
}

#[test]
fn query_becomes_search() {
    let q = DashboardQuery {
        page: Some(0),
        page_size: Some(1000),
        model: Some("  ".to_string()),
        provider: Some(" openai ".to_string()),
        has_error: Some("1".to_string()),
        q: Some("".to_string()),
        from: Some(10),
        to: None,
    };
    let s = q.into_search();
    assert_eq!((s.page, s.page_size), (1, 200));
    assert_eq!(s.model, None);
    assert_eq!(s.provider.as_deref(), Some(" openai "));
    assert!(s.has_error);
    assert_eq!(s.q, None);
    assert_eq!((s.from, s.to), (Some(10), None));

    let d = DashboardQuery { page: None, page_size: Some(0), model: None, provider: None, has_error: Some("true".to_string()), q: Some("k".to_string()), from: None, to: None }.into_search();
    assert_eq!((d.page, d.page_size, d.has_error), (1, 1, false));
    let d = DashboardQuery { page: Some(4), page_size: None, model: None, provider: None, has_error: None, q: None, from: None, to: Some(9) }.into_search();
    assert_eq!((d.page, d.page_size, d.to), (4, 20, Some(9)));
}

#[test]
fn endpoint_replies() {
    let s = search(1, 20);
    let ok = dashboard_reply(Some((vec!["m".to_string()], vec![])), &s);
    assert_eq!(ok.status, 200);
    let failed = dashboard_reply(None, &s);
    assert_eq!(failed.status, 500);
    assert_eq!(failed.body, render_error_page("Failed to load dashboard."));
    let failed = dashboard_errors_reply(None, &s);
    assert_eq!(failed.body, render_error_page("Failed to load error dashboard."));
    let rows = requests_rows_reply(None, &s);
    assert_eq!((rows.status, rows.body.as_str()), (500, "<div class=\"p-4 text-red-700\">Failed to load requests.</div>"));
    let rows = requests_rows_reply(Some(RequestListResult { rows: vec![], total_count: 0 }), &s);
    assert_eq!(rows.status, 200);
    let missing = request_detail_reply(Ok(None), "abc");
    assert_eq!((missing.status, missing.body), (404, render_not_found_page("abc")));
    let broken = request_detail_reply(Err(()), "abc");
    assert_eq!((broken.status, broken.body), (500, render_error_page("Failed to load request details.")));
    let found = request_detail_reply(Ok(Some(row("abc", None))), "abc");
    assert_eq!((found.status, found.body), (200, render_request_detail(&row("abc", None))));
}

#[test]
fn dashboard_markup_does_not_depend_on_the_search() {
    let models = vec!["gpt-4o".to_string(), "m<1>".to_string(), "<<".to_string()];
    let providers = vec!["open<ai>".to_string()];
    let mut hostile = search(3, 50);
    hostile.q = Some("<script>\"x\"</script>".to_string());
    hostile.provider = Some("open<ai>".to_string());
    hostile.has_error = true;
    let plain = search(1, 20);
    let base = render_dashboard_page(&[], &[], &plain).matches('<').count();
    for s in [&hostile, &plain] {
        let page = render_dashboard_page(&models, &providers, s);
        assert_eq!(page.matches('<').count(), base + 2 * (models.len() + providers.len()));
        let q = s.q.as_deref().unwrap_or("");
        assert!(page.contains(&format!("name=\"q\" value=\"{}\"", escape_html(q))));
    }
    let mut none = search(2, 100);
    none.q = None;
    assert!(render_dashboard_page(&models, &providers, &none).contains("name=\"q\" value=\"\""));
}

#[test]
fn error_dashboard_ignores_the_error_flag() {
    let models = vec!["gpt-4o".to_string()];
    let providers = vec!["openai".to_string()];
    let s = search(1, 20);
    let mut flipped = copy_search(&s);
    flipped.has_error = !s.has_error;
    let page = render_dashboard_error_page(&models, &providers, &s);
    assert_eq!(page, render_dashboard_error_page(&models, &providers, &flipped));
    assert!(page.contains("name=\"has_error\" value=\"1\" checked disabled"));
    assert!(page.contains("Only errors (forced)"));
    assert!(page.contains("<title>OpenRouterLocal Error Logs</title>"));
}

#[test]
fn not_found_page_embeds_the_escaped_id() {
    let empty = render_not_found_page("");
    for id in ["abc", "<x>", "a&b\"c'", ""] {
        let page = render_not_found_page(id);
        assert!(page.contains(&format!("No request found for id <code>{}</code>.", escape_html(id))));
        assert_eq!(page, empty.replace("<code></code>", &format!("<code>{}</code>", escape_html(id))));
    }
}
