//! The fixed text of the dashboard's HTML, between the places where values
//! are inserted.
use vstd::prelude::*;

verus! {

pub const DASHBOARD_0: &'static str = r##"<!doctype html>
<html lang="en">
<head>
  <meta charset="UTF-8" />
  <meta name="viewport" content="width=device-width, initial-scale=1.0" />
  "##;

pub const TITLE_OPEN: &'static str = r##"<title>"##;

pub const TITLE_CLOSE: &'static str = r##"</title>"##;

pub const DASHBOARD_HEADER: &'static str = r##"
  <script src="https://cdn.tailwindcss.com"></script>
  <script src="https://unpkg.com/htmx.org/dist/htmx.min.js"></script>
</head>
<body class="bg-slate-100 text-slate-900 min-h-screen">
  <main class="max-w-7xl mx-auto p-6 space-y-4">
    <div class="flex items-center justify-between">
      <h1 class="text-2xl font-bold">OpenRouterLocal Dashboard</h1>
      <a href="/dashboard/errors" class="text-sm text-red-700 hover:underline">View error logs</a>
    </div>

    <form id="filters"
      class="bg-white rounded-lg shadow p-4 grid grid-cols-1 md:grid-cols-6 gap-3"
      hx-get="/dashboard/partials/requests"
      hx-target="#table-wrapper"
      hx-trigger="change, keyup changed delay:300ms from:#q"
      hx-swap="innerHTML">

      <input type="hidden" name="page" value="1" />

      <div>
        <label class="block text-sm font-medium">Model</label>
        <select name="model" class="w-full border rounded px-2 py-1">
          <option value="">All</option>
          "##;

pub const DASHBOARD_1: &'static str = r##"
        </select>
      </div>

      <div>
        <label class="block text-sm font-medium">Provider</label>
        <select name="provider" class="w-full border rounded px-2 py-1">
          <option value="">All</option>
          "##;

pub const DASHBOARD_2: &'static str = r##"
        </select>
      </div>

      <div class="flex items-end">
        <label class="inline-flex items-center gap-2">
          "##;

pub const CHECKBOX_OPEN: &'static str = r##"<input type="checkbox" "##;

pub const ERRORS_CHECKBOX_NAME: &'static str = r##"name="has_error" value="1" "##;

pub const DASHBOARD_3: &'static str = r##" />
          <span class="text-sm">"##;

pub const SPAN_CLOSE: &'static str = "</span>";

pub const DASHBOARD_3B: &'static str = r##"
        </label>
      </div>

      <div>
        <label class="block text-sm font-medium">Search</label>
        <input id="q" "##;

/// The search box's value attribute, around the escaped keyword.
pub const SEARCH_VALUE_OPEN: &'static str = r#"name="q" value=""#;

pub const SEARCH_VALUE_CLOSE: &'static str = r#"""#;

pub const DASHBOARD_4: &'static str = r##" placeholder="keyword" class="w-full border rounded px-2 py-1" />
      </div>

      <div>
        <label class="block text-sm font-medium">Page size</label>
        <select name="page_size" class="w-full border rounded px-2 py-1">
          <option value="20" "##;

pub const DASHBOARD_5: &'static str = r##">20</option>
          <option value="50" "##;

pub const DASHBOARD_6: &'static str = r##">50</option>
          <option value="100" "##;

pub const DASHBOARD_7: &'static str = r##">100</option>
        </select>
      </div>
    </form>

    <div id="table-wrapper"
      class="bg-white rounded-lg shadow overflow-hidden"
      hx-get="/dashboard/partials/requests?page="##;

pub const DASHBOARD_8: &'static str = r##"&page_size="##;

pub const DASHBOARD_9: &'static str = r##""
      hx-include="#filters"
      hx-trigger="load"
      hx-swap="innerHTML">
      <div class="p-4 text-sm text-slate-500">Loading...</div>
    </div>
  </main>
</body>
</html>"##;

pub const TABLE_0: &'static str = r##"<div>
<table class="w-full text-sm">
  <thead class="bg-slate-50 text-left">
    <tr>
      <th class="p-3">Time</th>
      <th class="p-3">Model</th>
      <th class="p-3">Provider</th>
      <th class="p-3">Tokens (p/c/t)</th>
      <th class="p-3">Latency (ms)</th>
      <th class="p-3">Cost</th>
      <th class="p-3">Status</th>
      <th class="p-3">Error</th>
      <th class="p-3">Action</th>
    </tr>
  </thead>
  <tbody id="req-rows" class="divide-y">
    "##;

pub const TABLE_1: &'static str = r##"
  </tbody>
</table>
<div class="p-3 flex items-center justify-between border-t bg-slate-50">
  <div class="text-xs text-slate-600">Total: "##;

pub const TABLE_2: &'static str = r##" | Page "##;

pub const TABLE_3: &'static str = r##" of "##;

pub const TABLE_4: &'static str = r##"</div>
  <div class="flex gap-2">
    <button class="px-3 py-1 rounded border bg-white disabled:opacity-50" "##;

pub const TABLE_5: &'static str = r##"
      hx-get="/dashboard/partials/requests?page="##;

pub const TABLE_6: &'static str = r##""
      hx-include="#filters"
      hx-target="#table-wrapper"
      hx-swap="innerHTML">Prev</button>
    <button class="px-3 py-1 rounded border bg-white disabled:opacity-50" "##;

pub const TABLE_7: &'static str = r##"
      hx-get="/dashboard/partials/requests?page="##;

pub const TABLE_8: &'static str = r##""
      hx-include="#filters"
      hx-target="#table-wrapper"
      hx-swap="innerHTML">Next</button>
  </div>
</div>
</div>"##;

pub const DETAIL_0: &'static str = r##"<!doctype html>
<html lang="en">
<head>
  <meta charset="UTF-8" />
  <meta name="viewport" content="width=device-width, initial-scale=1.0" />
  <title>Request "##;

pub const DETAIL_1: &'static str = r##"</title>
  <script src="https://cdn.tailwindcss.com"></script>
</head>
<body class="bg-slate-100 text-slate-900 min-h-screen">
  <main class="max-w-6xl mx-auto p-6 space-y-4">
    <a href="/dashboard" class="text-blue-600 hover:underline">← Back to dashboard</a>
    <h1 class="text-2xl font-bold">Request "##;

pub const DETAIL_2: &'static str = r##"</h1>

    <div class="bg-white rounded shadow p-4 grid grid-cols-1 md:grid-cols-3 gap-2 text-sm">
      <div><span class="font-semibold">Time:</span> "##;

pub const DETAIL_3: &'static str = r##"</div>
      <div><span class="font-semibold">Model:</span> "##;

pub const DETAIL_4: &'static str = r##"</div>
      <div><span class="font-semibold">Provider:</span> "##;

pub const DETAIL_5: &'static str = r##"</div>
      <div><span class="font-semibold">Latency:</span> "##;

pub const DETAIL_6: &'static str = r##" ms</div>
      <div><span class="font-semibold">Tokens:</span> "##;

pub const DETAIL_7: &'static str = r##"/"##;

pub const DETAIL_8: &'static str = r##"/"##;

pub const DETAIL_9: &'static str = r##"</div>
      <div><span class="font-semibold">Cost:</span> "##;

pub const DETAIL_10: &'static str = r##"</div>
      <div><span class="font-semibold">Status:</span> "##;

pub const DETAIL_11: &'static str = r##"</div>
    </div>

    <section class="bg-white rounded shadow p-4">
      <div class="flex items-center justify-between mb-2">
        <h2 class="text-lg font-semibold">Request JSON</h2>
        <button class="px-2 py-1 border rounded text-sm" onclick="copyText('request-json')">Copy</button>
      </div>
      <pre id="request-json" class="bg-slate-50 p-3 rounded overflow-x-auto text-xs">"##;

pub const DETAIL_12: &'static str = r##"</pre>
    </section>

    <section class="bg-white rounded shadow p-4">
      <div class="flex items-center justify-between mb-2">
        <h2 class="text-lg font-semibold">Response Text</h2>
        <button class="px-2 py-1 border rounded text-sm" onclick="copyText('response-text')">Copy</button>
      </div>
      <pre id="response-text" class="bg-slate-50 p-3 rounded overflow-x-auto text-xs whitespace-pre-wrap">"##;

pub const DETAIL_13: &'static str = r##"</pre>
    </section>

    "##;

pub const DETAIL_14: &'static str = r##"
  </main>
  <script>
    function copyText(id) {
      const el = document.getElementById(id);
      if (!el) return;
      navigator.clipboard.writeText(el.textContent || '');
    }
  </script>
</body>
</html>"##;

pub const ROW_0: &'static str = r##"<tr>
<td class="p-3">"##;

pub const ROW_1: &'static str = r##"</td>
<td class="p-3">"##;

pub const ROW_2: &'static str = r##"</td>
<td class="p-3">"##;

pub const ROW_3: &'static str = r##"</td>
<td class="p-3">"##;

pub const ROW_4: &'static str = r##"/"##;

pub const ROW_5: &'static str = r##"/"##;

pub const ROW_6: &'static str = r##"</td>
<td class="p-3">"##;

pub const ROW_7: &'static str = r##"</td>
<td class="p-3">"##;

pub const ROW_8: &'static str = r##"</td>
<td class="p-3">"##;

pub const ROW_9: &'static str = r##"</td>
<td class="p-3 text-xs text-red-700">"##;

pub const ROW_10: &'static str = r##"</td>
<td class="p-3"><a class="text-blue-600 hover:underline" href="/dashboard/requests/"##;

pub const ROW_11: &'static str = r##"">View</a></td>
</tr>"##;

pub const OPTION_OPEN: &'static str = r#"<option value=""#;

pub const OPTION_MID: &'static str = r#"" "#;

pub const OPTION_GT: &'static str = ">";

pub const OPTION_CLOSE: &'static str = "</option>";

pub const SELECTED: &'static str = "selected";

pub const CHECKED: &'static str = "checked";

pub const DISABLED: &'static str = "disabled";

pub const EMPTY_ROWS: &'static str = r#"<tr><td class="p-3 text-center text-slate-500" colspan="9">No requests found</td></tr>"#;

pub const ERROR_SECTION_OPEN: &'static str = r#"<section class="bg-red-50 border border-red-200 rounded shadow p-4"><h2 class="text-lg font-semibold text-red-700">Error</h2><pre class="mt-2 text-xs whitespace-pre-wrap">"#;

pub const ERROR_SECTION_CLOSE: &'static str = "</pre></section>";

pub const NOT_FOUND_OPEN: &'static str = r#"<!doctype html><html><head><meta charset="utf-8"><script src="https://cdn.tailwindcss.com"></script></head><body class="bg-slate-100"><main class="max-w-xl mx-auto p-8"><h1 class="text-2xl font-bold">Request not found</h1><p class="mt-2">"#;

/// The sentence of the not-found page, around the escaped id.
pub const NOT_FOUND_ID_OPEN: &'static str = "No request found for id <code>";

pub const NOT_FOUND_ID_CLOSE: &'static str = "</code>.";

pub const NOT_FOUND_CLOSE: &'static str = r#"</p><a class="text-blue-600 hover:underline" href="/dashboard">Back</a></main></body></html>"#;

pub const ERROR_PAGE_OPEN: &'static str = r#"<!doctype html><html><head><meta charset="utf-8"><script src="https://cdn.tailwindcss.com"></script></head><body class="bg-slate-100"><main class="max-w-xl mx-auto p-8"><h1 class="text-2xl font-bold">Internal server error</h1><p class="mt-2 text-red-700">"#;

pub const ERROR_PAGE_CLOSE: &'static str = r#"</p><a class="text-blue-600 hover:underline" href="/dashboard">Back</a></main></body></html>"#;

pub const ROWS_FAILURE: &'static str = r#"<div class="p-4 text-red-700">Failed to load requests.</div>"#;

pub const DASHBOARD_TITLE: &'static str = "OpenRouterLocal Dashboard";

pub const ERROR_LOGS_TITLE: &'static str = "OpenRouterLocal Error Logs";

pub const ONLY_ERRORS: &'static str = "Only errors";

pub const ONLY_ERRORS_FORCED: &'static str = "Only errors (forced)";

pub const ERRORS_CHECKBOX: &'static str = r#"name="has_error" value="1" checked"#;

pub const ERRORS_CHECKBOX_DISABLED: &'static str = r#"name="has_error" value="1" checked disabled"#;

} // verus!
