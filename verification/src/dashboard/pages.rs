//! The HTML of the dashboard: escaping, table cells, and the pages.
use chrono::TimeZone;
use vstd::prelude::*;

use crate::dashboard::templates::{
    NOT_FOUND_ID_CLOSE, NOT_FOUND_ID_OPEN, SEARCH_VALUE_CLOSE, SEARCH_VALUE_OPEN,
    DETAIL_0, DETAIL_1, DETAIL_2, DETAIL_3, DETAIL_4, DETAIL_5, DETAIL_6, DETAIL_7, DETAIL_8,
    DETAIL_9, DETAIL_10, DETAIL_11, DETAIL_12, DETAIL_13, DETAIL_14, DISABLED, EMPTY_ROWS,
    ERROR_SECTION_CLOSE, ERROR_SECTION_OPEN, ROW_0, ROW_1, ROW_2, ROW_3, ROW_4, ROW_5, ROW_6, ROW_7,
    ROW_8, ROW_9, ROW_10, ROW_11, TABLE_0, TABLE_1, TABLE_2, TABLE_3, TABLE_4, TABLE_5, TABLE_6,
    TABLE_7, TABLE_8, CHECKBOX_OPEN, CHECKED, DASHBOARD_0, DASHBOARD_3B, DASHBOARD_HEADER, SPAN_CLOSE, ERRORS_CHECKBOX_NAME, TITLE_CLOSE, TITLE_OPEN, DASHBOARD_1, DASHBOARD_2, DASHBOARD_3, DASHBOARD_4, DASHBOARD_5, DASHBOARD_6, DASHBOARD_7, DASHBOARD_8, DASHBOARD_9, DASHBOARD_TITLE, ERRORS_CHECKBOX, ERRORS_CHECKBOX_DISABLED, ERROR_LOGS_TITLE, ERROR_PAGE_CLOSE, ERROR_PAGE_OPEN, NOT_FOUND_CLOSE, NOT_FOUND_OPEN, ONLY_ERRORS, ONLY_ERRORS_FORCED, OPTION_CLOSE, OPTION_GT, OPTION_MID, OPTION_OPEN, SELECTED,
};
use crate::logging::db::{
    errors_only_view, opt_text, DashboardRequestRow, RequestListResult, RequestListSearch, SearchView,
};
use crate::text::{decimal_digits, has_infix, lemma_infix_extend, lemma_infix_of_concat, push_decimal};
use crate::text::{
    lemma_replace_split, lemma_replace_unchanged, lemma_replace_whole, occurs_at, replace_all,
    replace_text,
};
use crate::text::{chars_of, i64_text, is_blank, push_char, push_int, trim_seq, trim_text};

verus! {

/// What one character becomes in HTML text or attribute values.
pub open spec fn escape_char(c: char) -> Seq<char> {
    if c == '&' {
        "&amp;"@
    } else if c == '<' {
        "&lt;"@
    } else if c == '>' {
        "&gt;"@
    } else if c == '"' {
        "&quot;"@
    } else if c == '\'' {
        "&#39;"@
    } else {
        seq![c]
    }
}

/// The text with each character escaped.
pub open spec fn escape_seq(s: Seq<char>) -> Seq<char>
    decreases s.len(),
{
    if s.len() == 0 {
        seq![]
    } else {
        escape_seq(s.drop_last()) + escape_char(s.last())
    }
}

fn push_escaped(out: &mut String, c: char)
    ensures
        final(out)@ == old(out)@ + escape_char(c),
{
    if c == '&' {
        out.append("&amp;");
    } else if c == '<' {
        out.append("&lt;");
    } else if c == '>' {
        out.append("&gt;");
    } else if c == '"' {
        out.append("&quot;");
    } else if c == '\'' {
        out.append("&#39;");
    } else {
        push_char(out, c);
    }
}

/// Appends `input`, escaped for HTML, to `out`.
pub fn push_escaped_text(out: &mut String, input: &str)
    ensures
        final(out)@ == old(out)@ + escape_seq(input@),
{
    let v = chars_of(input);
    let ghost start = out@;
    let mut i: usize = 0;
    assert(v@.take(0) =~= Seq::<char>::empty());
    assert(start + escape_seq(Seq::<char>::empty()) =~= start);
    while i < v.len()
        invariant
            v@ == input@,
            i <= v@.len(),
            out@ == start + escape_seq(v@.take(i as int)),
        decreases v@.len() - i,
    {
        push_escaped(out, v[i]);
        assert(v@.take(i + 1).drop_last() =~= v@.take(i as int));
        assert(start + escape_seq(v@.take(i as int)) + escape_char(v@[i as int]) =~= start
            + escape_seq(v@.take(i + 1)));
        i = i + 1;
    }
    assert(v@.take(i as int) =~= v@);
}

/// `input` with `&`, `<`, `>`, `"` and `'` replaced by their HTML entities.
pub fn escape_html(input: &str) -> (r: String)
    ensures
        r@ == escape_seq(input@),
{
    let mut r = String::new();
    push_escaped_text(&mut r, input);
    assert(Seq::<char>::empty() + escape_seq(input@) =~= escape_seq(input@));
    r
}

/// Escaped text holds no character that could open a tag or close an
/// attribute value.
pub proof fn lemma_escaped_has_no_markup(s: Seq<char>)
    ensures
        forall|i: int|
            0 <= i < escape_seq(s).len() ==> {
                let c = #[trigger] escape_seq(s)[i];
                c != '<' && c != '>' && c != '"' && c != '\''
            },
    decreases s.len(),
{
    reveal_strlit("&amp;");
    reveal_strlit("&lt;");
    reveal_strlit("&gt;");
    reveal_strlit("&quot;");
    reveal_strlit("&#39;");
    if s.len() > 0 {
        lemma_escaped_has_no_markup(s.drop_last());
        let a = escape_seq(s.drop_last());
        let b = escape_char(s.last());
        assert forall|i: int| 0 <= i < (a + b).len() implies {
            let c = #[trigger] (a + b)[i];
            c != '<' && c != '>' && c != '"' && c != '\''
        } by {
            if i >= a.len() {
                assert((a + b)[i] == b[i - a.len()]);
            } else {
                assert((a + b)[i] == a[i]);
            }
        }
    }
}

/// Text without markup characters or `&` is left as it is.
pub proof fn lemma_plain_text_unchanged(s: Seq<char>)
    requires
        forall|i: int|
            0 <= i < s.len() ==> {
                let c = #[trigger] s[i];
                c != '&' && c != '<' && c != '>' && c != '"' && c != '\''
            },
    ensures
        escape_seq(s) == s,
    decreases s.len(),
{
    if s.len() > 0 {
        assert forall|i: int| 0 <= i < s.drop_last().len() implies {
            let c = #[trigger] s.drop_last()[i];
            c != '&' && c != '<' && c != '>' && c != '"' && c != '\''
        } by {
            assert(s.drop_last()[i] == s[i]);
        }
        lemma_plain_text_unchanged(s.drop_last());
        assert(s[s.len() - 1] == s.last());
        assert(s.drop_last() + seq![s.last()] =~= s);
    } else {
        assert(s =~= Seq::<char>::empty());
    }
}

/// The status column: `Error` when the request has a non-blank error.
#[verifier::opaque]
pub open spec fn status_label(err: Option<Seq<char>>) -> Seq<char> {
    match err {
        Some(e) => if trim_seq(e).len() > 0 {
            "Error"@
        } else {
            "OK"@
        },
        None => "OK"@,
    }
}

/// The status of a logged request.
pub fn render_status(err: &Option<String>) -> (r: &'static str)
    ensures
        r@ == status_label(opt_text(*err)),
{
    reveal(status_label);
    match err {
        Some(e) => if !is_blank(e.as_str()) {
            "Error"
        } else {
            "OK"
        },
        None => "OK",
    }
}

/// The number of characters of an error that the table shows.
pub const PREVIEW_CHARS: usize = 120;

/// The error column: the trimmed error, cut after 120 characters with an
/// ellipsis, escaped; `-` when there is no error or it is blank.
#[verifier::opaque]
pub open spec fn error_preview_text(err: Option<Seq<char>>) -> Seq<char> {
    match err {
        Some(e) => {
            let t = trim_seq(e);
            if t.len() == 0 {
                "-"@
            } else if t.len() > PREVIEW_CHARS {
                escape_seq(t.take(PREVIEW_CHARS as int).push('…'))
            } else {
                escape_seq(t)
            }
        },
        None => "-"@,
    }
}

/// The error column of a logged request.
pub fn render_error_preview(err: &Option<String>) -> (r: String)
    ensures
        r@ == error_preview_text(opt_text(*err)),
{
    reveal(error_preview_text);
    match err {
        Some(e) => {
            let t = trim_text(e.as_str());
            let v = chars_of(t.as_str());
            if v.len() == 0 {
                String::from_str("-")
            } else if v.len() > PREVIEW_CHARS {
                let mut preview = crate::text::string_from_chars(&v, 0, PREVIEW_CHARS);
                push_char(&mut preview, '…');
                assert(v@.subrange(0, PREVIEW_CHARS as int) =~= v@.take(PREVIEW_CHARS as int));
                escape_html(preview.as_str())
            } else {
                escape_html(t.as_str())
            }
        },
        None => String::from_str("-"),
    }
}

/// An optional integer cell: its decimal text, or `-`.
pub open spec fn opt_int_text(v: Option<i64>) -> Seq<char> {
    match v {
        Some(n) => crate::text::decimal_int(n as int),
        None => "-"@,
    }
}

/// An optional integer as a table cell.
pub fn fmt_opt_i64(val: Option<i64>) -> (r: String)
    ensures
        r@ == opt_int_text(val),
{
    match val {
        Some(v) => i64_text(v),
        None => String::from_str("-"),
    }
}

/// The date and time `secs` seconds after the Unix epoch, seen `offset_secs`
/// seconds east of UTC, as chrono renders it with `%Y-%m-%d %H:%M:%S`;
/// nothing when chrono cannot represent that instant.
pub uninterp spec fn chrono_local_time_text(secs: int, offset_secs: int) -> Option<Seq<char>>;

/// Renders an instant with chrono: `Utc.timestamp_opt(secs, 0).single()`,
/// moved to `FixedOffset::east_opt(offset_secs)` with `with_timezone`, then
/// `format("%Y-%m-%d %H:%M:%S")`. These calls make one rendering of one
/// instant, so one name stands for their result. Claimed: the result is a
/// function of the two arguments alone, and the epoch is always
/// representable (chrono documents `timestamp_opt` as failing only for
/// out-of-range seconds). The calendar arithmetic itself is not stated.
#[verifier::external_body]
fn format_local_time(secs: i64, offset_secs: i32) -> (r: Option<String>)
    requires
        -86400 < offset_secs < 86400,
    ensures
        match r {
            Some(t) => chrono_local_time_text(secs as int, offset_secs as int) == Some(t@),
            None => chrono_local_time_text(secs as int, offset_secs as int) is None,
        },
        secs == 0 ==> r is Some,
{
    let tz = chrono::FixedOffset::east_opt(offset_secs).unwrap();
    match chrono::Utc.timestamp_opt(secs, 0).single() {
        Some(instant) => Some(instant.with_timezone(&tz).format("%Y-%m-%d %H:%M:%S").to_string()),
        None => None,
    }
}

/// The dashboard's time zone, GMT+7, in seconds east of UTC.
pub const GMT7_OFFSET_SECS: i32 = 25200;

/// Stored timestamps above this are taken to be milliseconds.
pub const MILLIS_THRESHOLD: i64 = 10000000000;

/// A stored timestamp in seconds.
pub open spec fn epoch_seconds(created_at: int) -> int {
    if created_at > MILLIS_THRESHOLD {
        created_at / 1000
    } else {
        created_at
    }
}

/// The time column: the timestamp in GMT+7, or the epoch when chrono cannot
/// represent it.
#[verifier::opaque]
pub open spec fn time_text(created_at: int) -> Seq<char> {
    match chrono_local_time_text(epoch_seconds(created_at), GMT7_OFFSET_SECS as int) {
        Some(t) => t,
        None => chrono_local_time_text(0, GMT7_OFFSET_SECS as int)->0,
    }
}

/// A stored timestamp as GMT+7 date and time.
pub fn fmt_time_gmt7(created_at: i64) -> (r: String)
    ensures
        r@ == time_text(created_at as int),
{
    reveal(time_text);
    let secs = if created_at > MILLIS_THRESHOLD {
        created_at / 1000
    } else {
        created_at
    };
    match format_local_time(secs, GMT7_OFFSET_SECS) {
        Some(t) => t,
        None => {
            let epoch = format_local_time(0, GMT7_OFFSET_SECS);
            epoch.unwrap()
        },
    }
}


/// `word` when `on`, nothing otherwise.
pub open spec fn flag_text(on: bool, word: Seq<char>) -> Seq<char> {
    if on {
        word
    } else {
        seq![]
    }
}

/// One `<option>` of a filter list, marked `selected` when chosen.
pub open spec fn option_tag(value: Seq<char>, selected: bool) -> Seq<char> {
    OPTION_OPEN@ + escape_seq(value) + OPTION_MID@ + flag_text(selected, SELECTED@) + OPTION_GT@
        + escape_seq(value) + OPTION_CLOSE@
}

/// The `<option>`s of a filter list, in order; the one equal to `chosen`
/// is selected.
pub open spec fn options_text(items: Seq<Seq<char>>, chosen: Option<Seq<char>>) -> Seq<char>
    decreases items.len(),
{
    if items.len() == 0 {
        seq![]
    } else {
        options_text(items.drop_last(), chosen) + option_tag(
            items.last(),
            chosen == Some(items.last()),
        )
    }
}

/// The options of two lists one after the other are those of the joined
/// list.
pub proof fn lemma_options_concat(a: Seq<Seq<char>>, b: Seq<Seq<char>>, chosen: Option<Seq<char>>)
    ensures
        options_text(a + b, chosen) == options_text(a, chosen) + options_text(b, chosen),
    decreases b.len(),
{
    if b.len() == 0 {
        assert(a + b =~= a);
        assert(options_text(a, chosen) + Seq::<char>::empty() =~= options_text(a, chosen));
    } else {
        lemma_options_concat(a, b.drop_last(), chosen);
        assert((a + b).drop_last() =~= a + b.drop_last());
        assert((a + b).last() == b.last());
    }
}

/// Each option of a filter list, wherever it stands, shows its value and
/// is marked `selected` exactly when its value is the chosen filter; a list
/// with no items has no options.
pub proof fn lemma_option_at(items: Seq<Seq<char>>, chosen: Option<Seq<char>>, i: int)
    requires
        0 <= i < items.len(),
    ensures
        options_text(Seq::<Seq<char>>::empty(), chosen) == Seq::<char>::empty(),
        options_text(items, chosen) == options_text(items.take(i), chosen) + "<option value=\""@
            + escape_seq(items[i]) + "\" "@ + (if chosen == Some(items[i]) {
            "selected"@
        } else {
            Seq::<char>::empty()
        }) + ">"@ + escape_seq(items[i]) + "</option>"@ + options_text(items.skip(i + 1), chosen),
{
    reveal_strlit("<option value=\"");
    reveal_strlit("\" ");
    reveal_strlit("selected");
    reveal_strlit(">");
    reveal_strlit("</option>");
    let one = seq![items[i]];
    assert(items =~= items.take(i) + one + items.skip(i + 1));
    lemma_options_concat(items.take(i) + one, items.skip(i + 1), chosen);
    lemma_options_concat(items.take(i), one, chosen);
    assert(one.drop_last() =~= Seq::<Seq<char>>::empty());
    assert(one.last() == items[i]);
    assert(options_text(Seq::<Seq<char>>::empty(), chosen) == Seq::<char>::empty());
    assert(Seq::<char>::empty() + option_tag(items[i], chosen == Some(items[i])) =~= option_tag(
        items[i],
        chosen == Some(items[i]),
    ));
    assert(options_text(one, chosen) == option_tag(items[i], chosen == Some(items[i])));
    let sel = if chosen == Some(items[i]) {
        "selected"@
    } else {
        Seq::<char>::empty()
    };
    assert(flag_text(chosen == Some(items[i]), SELECTED@) == sel);
    assert(options_text(items, chosen) =~= options_text(items.take(i), chosen) + "<option value=\""@
        + escape_seq(items[i]) + "\" "@ + sel + ">"@ + escape_seq(items[i]) + "</option>"@
        + options_text(items.skip(i + 1), chosen));
}

/// The texts of a list of strings.
pub open spec fn texts(v: Seq<String>) -> Seq<Seq<char>> {
    v.map_values(|s: String| s@)
}

fn opt_eq(chosen: &Option<String>, item: &String) -> (r: bool)
    ensures
        r == (opt_text(*chosen) == Some(item@)),
{
    match chosen {
        Some(c) => *c == *item,
        None => false,
    }
}

fn push_option(out: &mut String, value: &String, selected: bool)
    ensures
        final(out)@ == old(out)@ + option_tag(value@, selected),
{
    out.append(OPTION_OPEN);
    push_escaped_text(out, value.as_str());
    out.append(OPTION_MID);
    if selected {
        out.append(SELECTED);
    }
    out.append(OPTION_GT);
    push_escaped_text(out, value.as_str());
    out.append(OPTION_CLOSE);
    assert(final(out)@ =~= old(out)@ + option_tag(value@, selected));
}

fn push_options(out: &mut String, items: &[String], chosen: &Option<String>)
    ensures
        final(out)@ == old(out)@ + options_text(texts(items@), opt_text(*chosen)),
{
    let ghost start = out@;
    let mut i: usize = 0;
    assert(texts(items@).take(0) =~= Seq::<Seq<char>>::empty());
    assert(start + options_text(Seq::<Seq<char>>::empty(), opt_text(*chosen)) =~= start);
    while i < items.len()
        invariant
            i <= items@.len(),
            out@ == start + options_text(texts(items@).take(i as int), opt_text(*chosen)),
        decreases items@.len() - i,
    {
        let sel = opt_eq(chosen, &items[i]);
        push_option(out, &items[i], sel);
        let ghost t = texts(items@).take(i + 1);
        assert(t.drop_last() =~= texts(items@).take(i as int));
        assert(t.last() == items@[i as int]@);
        assert(out@ =~= start + options_text(t, opt_text(*chosen)));
        i = i + 1;
    }
    assert(texts(items@).take(i as int) =~= texts(items@));
}

/// The keyword in the search box: the search's keyword, or nothing.
pub open spec fn keyword_text(q: Option<Seq<char>>) -> Seq<char> {
    match q {
        Some(t) => t,
        None => seq![],
    }
}

/// The search box's value attribute: the escaped keyword, quoted.
pub open spec fn search_value_text(q: Option<Seq<char>>) -> Seq<char> {
    SEARCH_VALUE_OPEN@ + escape_seq(keyword_text(q)) + SEARCH_VALUE_CLOSE@
}

/// The dashboard page: filter lists of the known models and providers, the
/// search's choices filled in, and a table that loads the search's page.
pub open spec fn dashboard_page_text(
    models: Seq<Seq<char>>,
    providers: Seq<Seq<char>>,
    s: SearchView,
) -> Seq<char> {
    DASHBOARD_0@ + TITLE_OPEN@ + DASHBOARD_TITLE@ + TITLE_CLOSE@ + DASHBOARD_HEADER@ + options_text(
        models,
        s.model,
    ) + DASHBOARD_1@ + options_text(providers, s.provider) + DASHBOARD_2@ + CHECKBOX_OPEN@
        + ERRORS_CHECKBOX_NAME@ + flag_text(s.has_error, CHECKED@) + DASHBOARD_3@ + ONLY_ERRORS@
        + SPAN_CLOSE@ + DASHBOARD_3B@ + search_value_text(s.q) + DASHBOARD_4@ + flag_text(s.page_size == 20, SELECTED@)
        + DASHBOARD_5@ + flag_text(s.page_size == 50, SELECTED@) + DASHBOARD_6@ + flag_text(
        s.page_size == 100,
        SELECTED@,
    ) + DASHBOARD_7@ + decimal_digits(s.page as nat) + DASHBOARD_8@ + decimal_digits(
        s.page_size as nat,
    ) + DASHBOARD_9@
}

/// The dashboard page for a search.
pub fn render_dashboard_page(models: &[String], providers: &[String], search: &RequestListSearch) -> (r:
    String)
    ensures
        r@ == dashboard_page_text(texts(models@), texts(providers@), search@),
{
    let mut out = String::new();
    out.append(DASHBOARD_0);
    out.append(TITLE_OPEN);
    out.append(DASHBOARD_TITLE);
    out.append(TITLE_CLOSE);
    out.append(DASHBOARD_HEADER);
    push_options(&mut out, models, &search.model);
    out.append(DASHBOARD_1);
    push_options(&mut out, providers, &search.provider);
    out.append(DASHBOARD_2);
    out.append(CHECKBOX_OPEN);
    out.append(ERRORS_CHECKBOX_NAME);
    if search.has_error {
        out.append(CHECKED);
    }
    out.append(DASHBOARD_3);
    out.append(ONLY_ERRORS);
    out.append(SPAN_CLOSE);
    out.append(DASHBOARD_3B);
    out.append(SEARCH_VALUE_OPEN);
    match &search.q {
        Some(q) => push_escaped_text(&mut out, q.as_str()),
        None => {
            assert(escape_seq(Seq::<char>::empty()) =~= Seq::<char>::empty());
        },
    }
    out.append(SEARCH_VALUE_CLOSE);
    out.append(DASHBOARD_4);
    if search.page_size == 20 {
        out.append(SELECTED);
    }
    out.append(DASHBOARD_5);
    if search.page_size == 50 {
        out.append(SELECTED);
    }
    out.append(DASHBOARD_6);
    if search.page_size == 100 {
        out.append(SELECTED);
    }
    out.append(DASHBOARD_7);
    push_decimal(&mut out, search.page as u64);
    out.append(DASHBOARD_8);
    push_decimal(&mut out, search.page_size as u64);
    out.append(DASHBOARD_9);
    assert(out@ =~= dashboard_page_text(texts(models@), texts(providers@), search@));
    out
}

/// The error-log page: the dashboard page for the same search restricted
/// to errors, retitled, with the errors-only box checked and disabled.
pub open spec fn dashboard_error_page_text(
    models: Seq<Seq<char>>,
    providers: Seq<Seq<char>>,
    s: SearchView,
) -> Seq<char> {
    replace_all(
        replace_all(
            replace_all(
                dashboard_page_text(models, providers, errors_only_view(s)),
                DASHBOARD_TITLE@,
                ERROR_LOGS_TITLE@,
            ),
            ONLY_ERRORS@,
            ONLY_ERRORS_FORCED@,
        ),
        ERRORS_CHECKBOX@,
        ERRORS_CHECKBOX_DISABLED@,
    )
}

/// The error-log page for a search.
pub fn render_dashboard_error_page(
    models: &[String],
    providers: &[String],
    search: &RequestListSearch,
) -> (r: String)
    ensures
        r@ == dashboard_error_page_text(texts(models@), texts(providers@), search@),
{
    let forced = search.errors_only();
    let page = render_dashboard_page(models, providers, &forced);
    proof {
        reveal_strlit("OpenRouterLocal Dashboard");
        reveal_strlit("Only errors");
        reveal_strlit("name=\"has_error\" value=\"1\" checked");
    }
    let a = replace_text(page.as_str(), DASHBOARD_TITLE, ERROR_LOGS_TITLE);
    let b = replace_text(a.as_str(), ONLY_ERRORS, ONLY_ERRORS_FORCED);
    replace_text(b.as_str(), ERRORS_CHECKBOX, ERRORS_CHECKBOX_DISABLED)
}

/// The page for an unknown request id: a fixed page with the escaped id in
/// its one sentence.
pub open spec fn not_found_page_text(id: Seq<char>) -> Seq<char> {
    NOT_FOUND_OPEN@ + NOT_FOUND_ID_OPEN@ + escape_seq(id) + NOT_FOUND_ID_CLOSE@ + NOT_FOUND_CLOSE@
}

/// The page for an unknown request id.
pub fn render_not_found_page(id: &str) -> (r: String)
    ensures
        r@ == not_found_page_text(id@),
{
    let mut out = String::new();
    out.append(NOT_FOUND_OPEN);
    out.append(NOT_FOUND_ID_OPEN);
    push_escaped_text(&mut out, id);
    out.append(NOT_FOUND_ID_CLOSE);
    out.append(NOT_FOUND_CLOSE);
    assert(out@ =~= not_found_page_text(id@));
    out
}

/// The page shown when the dashboard cannot load its data.
pub fn render_error_page(message: &str) -> (r: String)
    ensures
        r@ == ERROR_PAGE_OPEN@ + escape_seq(message@) + ERROR_PAGE_CLOSE@,
{
    let mut out = String::new();
    out.append(ERROR_PAGE_OPEN);
    push_escaped_text(&mut out, message);
    out.append(ERROR_PAGE_CLOSE);
    assert(out@ =~= ERROR_PAGE_OPEN@ + escape_seq(message@) + ERROR_PAGE_CLOSE@);
    out
}


/// The first columns of a row: time, model, provider, token counts.
pub open spec fn row_head_text(r: DashboardRequestRow) -> Seq<char> {
    ROW_0@ + time_text(r.created_at as int) + ROW_1@ + escape_seq(r.model@) + ROW_2@ + escape_seq(
        r.provider@,
    ) + ROW_3@ + opt_int_text(r.prompt_tokens) + ROW_4@ + opt_int_text(r.completion_tokens) + ROW_5@
        + opt_int_text(r.total_tokens) + ROW_6@
}

/// The last columns of a row: latency, cost, status, error and the link to
/// the details.
pub open spec fn row_tail_text(r: DashboardRequestRow) -> Seq<char> {
    opt_int_text(r.latency_ms) + ROW_7@ + r.cost_text@ + ROW_8@ + status_label(opt_text(r.error))
        + ROW_9@ + error_preview_text(opt_text(r.error)) + ROW_10@ + escape_seq(r.id@) + ROW_11@
}

/// One row of the requests table.
pub open spec fn row_text(r: DashboardRequestRow) -> Seq<char> {
    row_head_text(r) + row_tail_text(r)
}

/// The rows of the requests table, in order.
pub open spec fn rows_text(rows: Seq<DashboardRequestRow>) -> Seq<char>
    decreases rows.len(),
{
    if rows.len() == 0 {
        seq![]
    } else {
        rows_text(rows.drop_last()) + row_text(rows.last())
    }
}

fn push_row_head(out: &mut String, row: &DashboardRequestRow)
    ensures
        final(out)@ == old(out)@ + row_head_text(*row),
{
    let time = fmt_time_gmt7(row.created_at);
    let prompt = fmt_opt_i64(row.prompt_tokens);
    let completion = fmt_opt_i64(row.completion_tokens);
    let total = fmt_opt_i64(row.total_tokens);
    out.append(ROW_0);
    out.append(time.as_str());
    out.append(ROW_1);
    push_escaped_text(out, row.model.as_str());
    out.append(ROW_2);
    push_escaped_text(out, row.provider.as_str());
    out.append(ROW_3);
    out.append(prompt.as_str());
    out.append(ROW_4);
    out.append(completion.as_str());
    out.append(ROW_5);
    out.append(total.as_str());
    out.append(ROW_6);
    assert(final(out)@ =~= old(out)@ + row_head_text(*row));
}

fn push_row_tail(out: &mut String, row: &DashboardRequestRow)
    ensures
        final(out)@ == old(out)@ + row_tail_text(*row),
{
    let latency = fmt_opt_i64(row.latency_ms);
    let status = render_status(&row.error);
    let preview = render_error_preview(&row.error);
    out.append(latency.as_str());
    out.append(ROW_7);
    out.append(row.cost_text.as_str());
    out.append(ROW_8);
    out.append(status);
    out.append(ROW_9);
    out.append(preview.as_str());
    out.append(ROW_10);
    push_escaped_text(out, row.id.as_str());
    out.append(ROW_11);
    assert(final(out)@ =~= old(out)@ + row_tail_text(*row));
}

fn push_request_row(out: &mut String, row: &DashboardRequestRow)
    ensures
        final(out)@ == old(out)@ + row_text(*row),
{
    push_row_head(out, row);
    push_row_tail(out, row);
    assert(final(out)@ =~= old(out)@ + row_text(*row));
}

/// One row of the requests table.
pub fn render_request_row(row: &DashboardRequestRow) -> (r: String)
    ensures
        r@ == row_text(*row),
{
    let mut out = String::new();
    push_request_row(&mut out, row);
    assert(Seq::<char>::empty() + row_text(*row) =~= row_text(*row));
    out
}

/// Integer division rounding toward zero, as Rust's `/` on signed integers.
pub open spec fn div_toward_zero(a: int, b: int) -> int {
    if a >= 0 {
        a / b
    } else {
        -((-a) / b)
    }
}

/// The number of pages a result of `total` rows fills: one when there are
/// none.
pub open spec fn page_count(total: int, page_size: int) -> int {
    if total == 0 {
        1
    } else {
        div_toward_zero(total - 1, page_size) + 1
    }
}

/// The number of pages a result of `total` rows fills.
pub fn page_count_of(total: i64, page_size: u32) -> (r: i64)
    requires
        page_size > 0 || total == 0,
        total != i64::MIN,
    ensures
        r == page_count(total as int, page_size as int),
{
    if total == 0 {
        return 1;
    }
    let t: i128 = total as i128 - 1;
    let s: i128 = page_size as i128;
    let m: i128 = if t >= 0 {
        t
    } else {
        -t
    };
    let q: i128 = m / s;
    assert(0 <= q <= m) by (nonlinear_arith)
        requires
            s >= 1,
            m >= 0,
            q == m / s,
    ;
    let signed: i128 = if t >= 0 {
        q
    } else {
        -q
    };
    (signed + 1) as i64
}

/// The page the "Prev" button loads.
pub open spec fn prev_page(page: int) -> int {
    if page > 1 {
        page - 1
    } else {
        1
    }
}

/// The page the "Next" button loads.
pub open spec fn next_page(page: int, pages: int) -> int {
    if page < pages {
        page + 1
    } else {
        page
    }
}

/// The pager covers every row and no empty page: all `total` rows fit in
/// `page_count` pages and, when there are rows, the last page holds some.
/// "Prev" never goes below page 1 and "Next" never past the last page
/// (unless the current page is already beyond it).
pub proof fn lemma_pager_bounds(page: int, total: int, size: int)
    requires
        size > 0,
        total >= 0,
    ensures
        page_count(total, size) >= 1,
        total <= page_count(total, size) * size,
        total > 0 ==> (page_count(total, size) - 1) * size < total,
        prev_page(page) >= 1,
        page >= 1 ==> prev_page(page) <= page,
        next_page(page, page_count(total, size)) >= page,
        next_page(page, page_count(total, size)) <= if page > page_count(total, size) {
            page
        } else {
            page_count(total, size)
        },
{
    if total > 0 {
        let q = (total - 1) / size;
        assert(q * size <= total - 1 < (q + 1) * size) by (nonlinear_arith)
            requires
                size > 0,
                total >= 1,
                q == (total - 1) / size,
        ;
        assert(q >= 0) by (nonlinear_arith)
            requires
                size > 0,
                total >= 1,
                q == (total - 1) / size,
        ;
    }
}

/// The requests table of one page of results, with its pager.
pub open spec fn requests_table_text(rows: Seq<DashboardRequestRow>, total: int, s: SearchView) -> Seq<
    char,
> {
    let pages = page_count(total, s.page_size as int);
    TABLE_0@ + (if rows.len() == 0 {
        EMPTY_ROWS@
    } else {
        rows_text(rows)
    }) + TABLE_1@ + crate::text::decimal_int(total) + TABLE_2@ + decimal_digits(s.page as nat)
        + TABLE_3@ + crate::text::decimal_int(pages) + TABLE_4@ + flag_text(s.page <= 1, DISABLED@)
        + TABLE_5@ + crate::text::decimal_int(prev_page(s.page as int)) + TABLE_6@ + flag_text(
        s.page >= pages,
        DISABLED@,
    ) + TABLE_7@ + crate::text::decimal_int(next_page(s.page as int, pages)) + TABLE_8@
}

/// The requests table of a page of results.
pub fn render_requests_table(result: &RequestListResult, search: &RequestListSearch) -> (r: String)
    requires
        search.page_size > 0 || result.total_count == 0,
        result.total_count != i64::MIN,
        search.page < page_count(result.total_count as int, search.page_size as int) ==> search.page
            < u32::MAX,
    ensures
        r@ == requests_table_text(result.rows@, result.total_count as int, search@),
{
    let mut out = String::new();
    out.append(TABLE_0);
    if result.rows.len() == 0 {
        out.append(EMPTY_ROWS);
    } else {
        let ghost start = out@;
        let mut i: usize = 0;
        assert(result.rows@.take(0) =~= Seq::<DashboardRequestRow>::empty());
        assert(start + rows_text(Seq::<DashboardRequestRow>::empty()) =~= start);
        while i < result.rows.len()
            invariant
                i <= result.rows@.len(),
                out@ == start + rows_text(result.rows@.take(i as int)),
            decreases result.rows@.len() - i,
        {
            push_request_row(&mut out, &result.rows[i]);
            let ghost t = result.rows@.take(i + 1);
            assert(t.drop_last() =~= result.rows@.take(i as int));
            assert(t.last() == result.rows@[i as int]);
            assert(out@ =~= start + rows_text(t));
            i = i + 1;
        }
        assert(result.rows@.take(i as int) =~= result.rows@);
    }
    let total = result.total_count;
    let pages: i64 = page_count_of(total, search.page_size);
    let page = search.page;
    let prev: u32 = if page > 1 {
        page - 1
    } else {
        1
    };
    let next: u32 = if (page as i64) < pages {
        page + 1
    } else {
        page
    };
    out.append(TABLE_1);
    push_int(&mut out, total);
    out.append(TABLE_2);
    push_decimal(&mut out, page as u64);
    out.append(TABLE_3);
    push_int(&mut out, pages);
    out.append(TABLE_4);
    if page <= 1 {
        out.append(DISABLED);
    }
    out.append(TABLE_5);
    push_int(&mut out, prev as i64);
    out.append(TABLE_6);
    if (page as i64) >= pages {
        out.append(DISABLED);
    }
    out.append(TABLE_7);
    push_int(&mut out, next as i64);
    out.append(TABLE_8);
    assert(out@ =~= requests_table_text(result.rows@, result.total_count as int, search@));
    out
}

/// The request JSON as shown: pretty-printed when it parses, as stored
/// otherwise.
pub open spec fn shown_request_json(raw: Seq<char>) -> Seq<char> {
    match serde_json_pretty(raw) {
        Some(p) => p,
        None => raw,
    }
}

/// What serde_json gives for `raw` when it parses the text into a
/// `serde_json::Value` and prints that value with `to_string_pretty`;
/// nothing when either step fails.
pub uninterp spec fn serde_json_pretty(raw: Seq<char>) -> Option<Seq<char>>;

/// Reformats JSON text with serde_json: `from_str::<Value>`, then
/// `to_string_pretty` of the parsed value; nothing when either fails. The two
/// calls make one reformatting, so one name stands for their result.
/// Claimed: the result depends on the text alone. Which texts parse and the
/// exact pretty layout are not stated.
#[verifier::external_body]
fn pretty_json(raw: &str) -> (r: Option<String>)
    ensures
        match r {
            Some(p) => serde_json_pretty(raw@) == Some(p@),
            None => serde_json_pretty(raw@) is None,
        },
{
    match serde_json::from_str::<serde_json::Value>(raw) {
        Ok(v) => serde_json::to_string_pretty(&v).ok(),
        Err(_) => None,
    }
}

/// The error section of the detail page: present whenever an error was
/// recorded.
pub open spec fn error_section_text(err: Option<Seq<char>>) -> Seq<char> {
    match err {
        Some(e) => ERROR_SECTION_OPEN@ + escape_seq(e) + ERROR_SECTION_CLOSE@,
        None => seq![],
    }
}

/// The detail page of one logged request.
pub open spec fn request_detail_text(r: DashboardRequestRow) -> Seq<char> {
    DETAIL_0@ + escape_seq(r.id@) + DETAIL_1@ + escape_seq(r.id@) + DETAIL_2@ + time_text(
        r.created_at as int,
    ) + DETAIL_3@ + escape_seq(r.model@) + DETAIL_4@ + escape_seq(r.provider@) + DETAIL_5@
        + opt_int_text(r.latency_ms) + DETAIL_6@ + opt_int_text(r.prompt_tokens) + DETAIL_7@
        + opt_int_text(r.completion_tokens) + DETAIL_8@ + opt_int_text(r.total_tokens) + DETAIL_9@
        + r.cost_text@ + DETAIL_10@ + status_label(opt_text(r.error)) + DETAIL_11@ + escape_seq(
        shown_request_json(r.request_json@),
    ) + DETAIL_12@ + escape_seq(keyword_text(opt_text(r.response_text))) + DETAIL_13@
        + error_section_text(opt_text(r.error)) + DETAIL_14@
}

/// The detail page of a logged request.
pub fn render_request_detail(row: &DashboardRequestRow) -> (r: String)
    ensures
        r@ == request_detail_text(*row),
{
    let parsed = match pretty_json(row.request_json.as_str()) {
        Some(p) => p,
        None => row.request_json.clone(),
    };
    let mut out = String::new();
    out.append(DETAIL_0);
    push_escaped_text(&mut out, row.id.as_str());
    out.append(DETAIL_1);
    push_escaped_text(&mut out, row.id.as_str());
    out.append(DETAIL_2);
    out.append(fmt_time_gmt7(row.created_at).as_str());
    out.append(DETAIL_3);
    push_escaped_text(&mut out, row.model.as_str());
    out.append(DETAIL_4);
    push_escaped_text(&mut out, row.provider.as_str());
    out.append(DETAIL_5);
    out.append(fmt_opt_i64(row.latency_ms).as_str());
    out.append(DETAIL_6);
    out.append(fmt_opt_i64(row.prompt_tokens).as_str());
    out.append(DETAIL_7);
    out.append(fmt_opt_i64(row.completion_tokens).as_str());
    out.append(DETAIL_8);
    out.append(fmt_opt_i64(row.total_tokens).as_str());
    out.append(DETAIL_9);
    out.append(row.cost_text.as_str());
    out.append(DETAIL_10);
    out.append(render_status(&row.error));
    out.append(DETAIL_11);
    push_escaped_text(&mut out, parsed.as_str());
    out.append(DETAIL_12);
    match &row.response_text {
        Some(t) => push_escaped_text(&mut out, t.as_str()),
        None => {
            assert(escape_seq(Seq::<char>::empty()) =~= Seq::<char>::empty());
        },
    }
    out.append(DETAIL_13);
    match &row.error {
        Some(e) => {
            out.append(ERROR_SECTION_OPEN);
            push_escaped_text(&mut out, e.as_str());
            out.append(ERROR_SECTION_CLOSE);
        },
        None => {},
    }
    out.append(DETAIL_14);
    assert(out@ =~= request_detail_text(*row));
    out
}


/// The number of times `c` occurs in `s`.
pub open spec fn count_char(s: Seq<char>, c: char) -> nat
    decreases s.len(),
{
    if s.len() == 0 {
        0
    } else {
        count_char(s.drop_last(), c) + if s.last() == c {
            1nat
        } else {
            0nat
        }
    }
}

/// Occurrences add up over a concatenation.
pub proof fn lemma_count_concat(a: Seq<char>, b: Seq<char>, c: char)
    ensures
        count_char(a + b, c) == count_char(a, c) + count_char(b, c),
    decreases b.len(),
{
    if b.len() == 0 {
        assert(a + b =~= a);
    } else {
        lemma_count_concat(a, b.drop_last(), c);
        assert((a + b).drop_last() =~= a + b.drop_last());
        assert((a + b).last() == b.last());
    }
}

proof fn lemma_count_absent(s: Seq<char>, c: char)
    requires
        forall|i: int| 0 <= i < s.len() ==> s[i] != c,
    ensures
        count_char(s, c) == 0,
    decreases s.len(),
{
    if s.len() > 0 {
        assert forall|i: int| 0 <= i < s.drop_last().len() implies s.drop_last()[i] != c by {
            assert(s.drop_last()[i] == s[i]);
        }
        lemma_count_absent(s.drop_last(), c);
        assert(s.last() == s[s.len() - 1]);
    }
}

proof fn lemma_escaped_no_tag_open(s: Seq<char>)
    ensures
        count_char(escape_seq(s), '<') == 0,
{
    lemma_escaped_has_no_markup(s);
    lemma_count_absent(escape_seq(s), '<');
}

proof fn lemma_decimal_no_tag_open(n: nat)
    ensures
        count_char(decimal_digits(n), '<') == 0,
{
    crate::process_manager::lemma_decimal_is_digits(n);
    assert forall|i: int| 0 <= i < decimal_digits(n).len() implies decimal_digits(n)[i] != '<' by {
        assert(crate::process_manager::is_digit(decimal_digits(n)[i]));
    }
    lemma_count_absent(decimal_digits(n), '<');
}

proof fn lemma_flag_no_tag_open(on: bool)
    ensures
        count_char(flag_text(on, SELECTED@), '<') == 0,
        count_char(flag_text(on, CHECKED@), '<') == 0,
{
    reveal_strlit("selected");
    reveal_strlit("checked");
    lemma_count_absent(SELECTED@, '<');
    lemma_count_absent(CHECKED@, '<');
    lemma_count_absent(Seq::<char>::empty(), '<');
}

proof fn lemma_option_tag_markup(value: Seq<char>, selected: bool)
    ensures
        count_char(option_tag(value, selected), '<') == 2,
{
    reveal_strlit("<option value=\"");
    reveal_strlit("\" ");
    reveal_strlit(">");
    reveal_strlit("</option>");
    let open = OPTION_OPEN@;
    let close = OPTION_CLOSE@;
    assert(open =~= seq!['<'] + open.skip(1));
    assert(close =~= seq!['<'] + close.skip(1));
    lemma_count_absent(open.skip(1), '<');
    lemma_count_absent(close.skip(1), '<');
    lemma_count_absent(OPTION_MID@, '<');
    lemma_count_absent(OPTION_GT@, '<');
    lemma_count_concat(seq!['<'], open.skip(1), '<');
    lemma_count_concat(seq!['<'], close.skip(1), '<');
    assert(count_char(seq!['<'], '<') == 1) by {
        assert(seq!['<'].drop_last() =~= Seq::<char>::empty());
        assert(count_char(Seq::<char>::empty(), '<') == 0);
        assert(seq!['<'].last() == '<');
    }
    lemma_escaped_no_tag_open(value);
    lemma_flag_no_tag_open(selected);
    let e = escape_seq(value);
    let f = flag_text(selected, SELECTED@);
    lemma_count_concat(open, e, '<');
    lemma_count_concat(open + e, OPTION_MID@, '<');
    lemma_count_concat(open + e + OPTION_MID@, f, '<');
    lemma_count_concat(open + e + OPTION_MID@ + f, OPTION_GT@, '<');
    lemma_count_concat(open + e + OPTION_MID@ + f + OPTION_GT@, e, '<');
    lemma_count_concat(open + e + OPTION_MID@ + f + OPTION_GT@ + e, close, '<');
}

proof fn lemma_options_markup(items: Seq<Seq<char>>, chosen: Option<Seq<char>>)
    ensures
        count_char(options_text(items, chosen), '<') == 2 * items.len(),
    decreases items.len(),
{
    if items.len() > 0 {
        lemma_options_markup(items.drop_last(), chosen);
        lemma_option_tag_markup(items.last(), chosen == Some(items.last()));
        lemma_count_concat(
            options_text(items.drop_last(), chosen),
            option_tag(items.last(), chosen == Some(items.last())),
            '<',
        );
    }
}

/// The `<` characters of the dashboard's fixed text.
pub open spec fn dashboard_fixed_markup() -> nat {
    count_char(DASHBOARD_0@, '<') + count_char(TITLE_OPEN@, '<') + count_char(DASHBOARD_TITLE@, '<')
        + count_char(TITLE_CLOSE@, '<') + count_char(DASHBOARD_HEADER@, '<') + count_char(
        DASHBOARD_1@,
        '<',
    ) + count_char(DASHBOARD_2@, '<') + count_char(CHECKBOX_OPEN@, '<') + count_char(
        ERRORS_CHECKBOX_NAME@,
        '<',
    ) + count_char(DASHBOARD_3@, '<') + count_char(ONLY_ERRORS@, '<') + count_char(SPAN_CLOSE@, '<')
        + count_char(DASHBOARD_3B@, '<')
        + count_char(SEARCH_VALUE_OPEN@, '<') + count_char(SEARCH_VALUE_CLOSE@, '<') + count_char(
        DASHBOARD_4@,
        '<',
    ) + count_char(DASHBOARD_5@, '<') + count_char(DASHBOARD_6@, '<') + count_char(DASHBOARD_7@, '<')
        + count_char(DASHBOARD_8@, '<') + count_char(DASHBOARD_9@, '<')
}

/// The dashboard's markup does not depend on the search or on what users
/// typed: its `<` characters are those of the fixed text plus two for each
/// model and provider option.
pub proof fn lemma_dashboard_markup(models: Seq<Seq<char>>, providers: Seq<Seq<char>>, s: SearchView)
    ensures
        count_char(dashboard_page_text(models, providers, s), '<') == dashboard_fixed_markup() + 2 * (
        models.len() + providers.len()),
{
    let mo = options_text(models, s.model);
    let po = options_text(providers, s.provider);
    let ch = flag_text(s.has_error, CHECKED@);
    let qv = escape_seq(keyword_text(s.q));
    let f20 = flag_text(s.page_size == 20, SELECTED@);
    let f50 = flag_text(s.page_size == 50, SELECTED@);
    let f100 = flag_text(s.page_size == 100, SELECTED@);
    let pg = decimal_digits(s.page as nat);
    let ps = decimal_digits(s.page_size as nat);
    lemma_options_markup(models, s.model);
    lemma_options_markup(providers, s.provider);
    lemma_flag_no_tag_open(s.has_error);
    lemma_flag_no_tag_open(s.page_size == 20);
    lemma_flag_no_tag_open(s.page_size == 50);
    lemma_flag_no_tag_open(s.page_size == 100);
    lemma_escaped_no_tag_open(keyword_text(s.q));
    lemma_decimal_no_tag_open(s.page as nat);
    lemma_decimal_no_tag_open(s.page_size as nat);
    let sv = search_value_text(s.q);
    lemma_count_concat(SEARCH_VALUE_OPEN@, qv, '<');
    lemma_count_concat(SEARCH_VALUE_OPEN@ + qv, SEARCH_VALUE_CLOSE@, '<');
    let p1 = DASHBOARD_0@ + TITLE_OPEN@;
    lemma_count_concat(DASHBOARD_0@, TITLE_OPEN@, '<');
    let p2 = p1 + DASHBOARD_TITLE@;
    lemma_count_concat(p1, DASHBOARD_TITLE@, '<');
    let p3 = p2 + TITLE_CLOSE@;
    lemma_count_concat(p2, TITLE_CLOSE@, '<');
    let p4 = p3 + DASHBOARD_HEADER@;
    lemma_count_concat(p3, DASHBOARD_HEADER@, '<');
    let p5 = p4 + mo;
    lemma_count_concat(p4, mo, '<');
    let p6 = p5 + DASHBOARD_1@;
    lemma_count_concat(p5, DASHBOARD_1@, '<');
    let p7 = p6 + po;
    lemma_count_concat(p6, po, '<');
    let p8 = p7 + DASHBOARD_2@;
    lemma_count_concat(p7, DASHBOARD_2@, '<');
    let p9 = p8 + CHECKBOX_OPEN@;
    lemma_count_concat(p8, CHECKBOX_OPEN@, '<');
    let p10 = p9 + ERRORS_CHECKBOX_NAME@;
    lemma_count_concat(p9, ERRORS_CHECKBOX_NAME@, '<');
    let p11 = p10 + ch;
    lemma_count_concat(p10, ch, '<');
    let p12 = p11 + DASHBOARD_3@;
    lemma_count_concat(p11, DASHBOARD_3@, '<');
    let p13 = p12 + ONLY_ERRORS@;
    lemma_count_concat(p12, ONLY_ERRORS@, '<');
    let p14 = p13 + SPAN_CLOSE@;
    lemma_count_concat(p13, SPAN_CLOSE@, '<');
    let p15 = p14 + DASHBOARD_3B@;
    lemma_count_concat(p14, DASHBOARD_3B@, '<');
    let p16 = p15 + sv;
    lemma_count_concat(p15, sv, '<');
    let p17 = p16 + DASHBOARD_4@;
    lemma_count_concat(p16, DASHBOARD_4@, '<');
    let p18 = p17 + f20;
    lemma_count_concat(p17, f20, '<');
    let p19 = p18 + DASHBOARD_5@;
    lemma_count_concat(p18, DASHBOARD_5@, '<');
    let p20 = p19 + f50;
    lemma_count_concat(p19, f50, '<');
    let p21 = p20 + DASHBOARD_6@;
    lemma_count_concat(p20, DASHBOARD_6@, '<');
    let p22 = p21 + f100;
    lemma_count_concat(p21, f100, '<');
    let p23 = p22 + DASHBOARD_7@;
    lemma_count_concat(p22, DASHBOARD_7@, '<');
    let p24 = p23 + pg;
    lemma_count_concat(p23, pg, '<');
    let p25 = p24 + DASHBOARD_8@;
    lemma_count_concat(p24, DASHBOARD_8@, '<');
    let p26 = p25 + ps;
    lemma_count_concat(p25, ps, '<');
    let p27 = p26 + DASHBOARD_9@;
    lemma_count_concat(p26, DASHBOARD_9@, '<');
    assert(p27 == dashboard_page_text(models, providers, s));
}

/// For any two searches, the dashboard's markup differs only by the option
/// lists: the page for a search has two `<` per model and provider more
/// than the page for any search with no models and no providers.
pub proof fn lemma_dashboard_markup_ignores_search(
    models: Seq<Seq<char>>,
    providers: Seq<Seq<char>>,
    s: SearchView,
    s0: SearchView,
)
    ensures
        count_char(dashboard_page_text(models, providers, s), '<') == count_char(
            dashboard_page_text(seq![], seq![], s0),
            '<',
        ) + 2 * (models.len() + providers.len()),
{
    lemma_dashboard_markup(models, providers, s);
    lemma_dashboard_markup(seq![], seq![], s0);
}

/// The search box shows the search's keyword, escaped, as its value.
pub proof fn lemma_dashboard_shows_keyword(
    models: Seq<Seq<char>>,
    providers: Seq<Seq<char>>,
    s: SearchView,
)
    ensures
        has_infix(dashboard_page_text(models, providers, s), search_value_text(s.q)),
{
    let pre = DASHBOARD_0@ + TITLE_OPEN@ + DASHBOARD_TITLE@ + TITLE_CLOSE@ + DASHBOARD_HEADER@
        + options_text(models, s.model) + DASHBOARD_1@ + options_text(providers, s.provider)
        + DASHBOARD_2@ + CHECKBOX_OPEN@ + ERRORS_CHECKBOX_NAME@ + flag_text(s.has_error, CHECKED@)
        + DASHBOARD_3@ + ONLY_ERRORS@ + SPAN_CLOSE@ + DASHBOARD_3B@;
    let sv = search_value_text(s.q);
    lemma_infix_of_concat(pre, sv, Seq::<char>::empty());
    assert(pre + sv + Seq::<char>::empty() =~= pre + sv);
    let q0 = pre + sv;
    lemma_infix_extend(q0, DASHBOARD_4@, sv);
    let q1 = q0 + DASHBOARD_4@;
    lemma_infix_extend(q1, flag_text(s.page_size == 20, SELECTED@), sv);
    let q2 = q1 + flag_text(s.page_size == 20, SELECTED@);
    lemma_infix_extend(q2, DASHBOARD_5@, sv);
    let q3 = q2 + DASHBOARD_5@;
    lemma_infix_extend(q3, flag_text(s.page_size == 50, SELECTED@), sv);
    let q4 = q3 + flag_text(s.page_size == 50, SELECTED@);
    lemma_infix_extend(q4, DASHBOARD_6@, sv);
    let q5 = q4 + DASHBOARD_6@;
    lemma_infix_extend(q5, flag_text(s.page_size == 100, SELECTED@), sv);
    let q6 = q5 + flag_text(s.page_size == 100, SELECTED@);
    lemma_infix_extend(q6, DASHBOARD_7@, sv);
    let q7 = q6 + DASHBOARD_7@;
    lemma_infix_extend(q7, decimal_digits(s.page as nat), sv);
    let q8 = q7 + decimal_digits(s.page as nat);
    lemma_infix_extend(q8, DASHBOARD_8@, sv);
    let q9 = q8 + DASHBOARD_8@;
    lemma_infix_extend(q9, decimal_digits(s.page_size as nat), sv);
    let q10 = q9 + decimal_digits(s.page_size as nat);
    lemma_infix_extend(q10, DASHBOARD_9@, sv);
    let q11 = q10 + DASHBOARD_9@;
    assert(q11 == dashboard_page_text(models, providers, s));
}

/// The error-log page does not depend on whether the incoming search asked
/// for errors only: it always shows the errors-only search.
pub proof fn lemma_error_page_ignores_error_flag(
    models: Seq<Seq<char>>,
    providers: Seq<Seq<char>>,
    s: SearchView,
    has_error: bool,
)
    ensures
        dashboard_error_page_text(models, providers, s) == dashboard_error_page_text(
            models,
            providers,
            (SearchView { has_error: has_error, ..s }),
        ),
{
    assert(errors_only_view(s) == errors_only_view(SearchView { has_error: has_error, ..s }));
}

/// The not-found page is the page for the empty id with the escaped id
/// inserted at one fixed place, inside the sentence that names it.
pub proof fn lemma_not_found_shows_id(id: Seq<char>)
    ensures
        has_infix(
            not_found_page_text(id),
            NOT_FOUND_ID_OPEN@ + escape_seq(id) + NOT_FOUND_ID_CLOSE@,
        ),
        not_found_page_text(id) == not_found_page_text(seq![]).take(
            (NOT_FOUND_OPEN@ + NOT_FOUND_ID_OPEN@).len() as int,
        ) + escape_seq(id) + not_found_page_text(seq![]).skip(
            (NOT_FOUND_OPEN@ + NOT_FOUND_ID_OPEN@).len() as int,
        ),
{
    let sentence = NOT_FOUND_ID_OPEN@ + escape_seq(id) + NOT_FOUND_ID_CLOSE@;
    assert(not_found_page_text(id) =~= NOT_FOUND_OPEN@ + sentence + NOT_FOUND_CLOSE@);
    lemma_infix_of_concat(NOT_FOUND_OPEN@, sentence, NOT_FOUND_CLOSE@);
    let empty = not_found_page_text(seq![]);
    let k = (NOT_FOUND_OPEN@ + NOT_FOUND_ID_OPEN@).len() as int;
    assert(escape_seq(Seq::<char>::empty()) =~= Seq::<char>::empty());
    assert(empty =~= NOT_FOUND_OPEN@ + NOT_FOUND_ID_OPEN@ + (NOT_FOUND_ID_CLOSE@ + NOT_FOUND_CLOSE@));
    assert(empty.take(k) =~= NOT_FOUND_OPEN@ + NOT_FOUND_ID_OPEN@);
    assert(empty.skip(k) =~= NOT_FOUND_ID_CLOSE@ + NOT_FOUND_CLOSE@);
    assert(not_found_page_text(id) =~= empty.take(k) + escape_seq(id) + empty.skip(k));
}

/// The part of the dashboard between the title and the filter checkbox.
pub open spec fn filters_text(models: Seq<Seq<char>>, providers: Seq<Seq<char>>, s: SearchView) -> Seq<
    char,
> {
    DASHBOARD_HEADER@ + options_text(models, s.model) + DASHBOARD_1@ + options_text(
        providers,
        s.provider,
    ) + DASHBOARD_2@
}

/// The errors-only checkbox when it is checked, up to its label.
pub open spec fn checked_box_text() -> Seq<char> {
    CHECKBOX_OPEN@ + ERRORS_CHECKBOX_NAME@ + CHECKED@ + DASHBOARD_3@
}

/// The part of the dashboard after the checkbox's label.
pub open spec fn page_tail_text(s: SearchView) -> Seq<char> {
    SPAN_CLOSE@ + DASHBOARD_3B@ + search_value_text(s.q) + DASHBOARD_4@ + flag_text(s.page_size == 20, SELECTED@) + DASHBOARD_5@ + flag_text(s.page_size == 50, SELECTED@) + DASHBOARD_6@ + flag_text(s.page_size == 100, SELECTED@) + DASHBOARD_7@ + decimal_digits(s.page as nat) + DASHBOARD_8@ + decimal_digits(s.page_size as nat) + DASHBOARD_9@
}

/// The dashboard of a search that asks for errors only, seen as its fixed
/// pieces around the filters and the tail.
proof fn lemma_forced_page_pieces(models: Seq<Seq<char>>, providers: Seq<Seq<char>>, s: SearchView)
    requires
        s.has_error,
    ensures
        dashboard_page_text(models, providers, s) == DASHBOARD_0@ + TITLE_OPEN@ + DASHBOARD_TITLE@
            + TITLE_CLOSE@ + filters_text(models, providers, s) + checked_box_text() + ONLY_ERRORS@
            + page_tail_text(s),
        page_tail_text(s).len() > 0,
        page_tail_text(s)[0] == '<',
{
    reveal_strlit("</span>");
    let p4 = DASHBOARD_0@ + TITLE_OPEN@ + DASHBOARD_TITLE@ + TITLE_CLOSE@;
    let mo = options_text(models, s.model);
    let po = options_text(providers, s.provider);
    let f1 = DASHBOARD_HEADER@ + mo;
    let f2 = f1 + DASHBOARD_1@;
    let f3 = f2 + po;
    let f4 = f3 + DASHBOARD_2@;
    assert(p4 + DASHBOARD_HEADER@ + mo + DASHBOARD_1@ =~= p4 + f2);
    assert(p4 + DASHBOARD_HEADER@ + mo + DASHBOARD_1@ + po =~= p4 + f3);
    assert(p4 + DASHBOARD_HEADER@ + mo + DASHBOARD_1@ + po + DASHBOARD_2@ =~= p4 + f4);
    let p9 = p4 + f4;
    assert(flag_text(s.has_error, CHECKED@) == CHECKED@);
    assert(p9 + CHECKBOX_OPEN@ + ERRORS_CHECKBOX_NAME@ + CHECKED@ =~= p9 + (CHECKBOX_OPEN@
        + ERRORS_CHECKBOX_NAME@ + CHECKED@));
    assert(p9 + CHECKBOX_OPEN@ + ERRORS_CHECKBOX_NAME@ + CHECKED@ + DASHBOARD_3@ =~= p9
        + checked_box_text());
    let head = p9 + checked_box_text() + ONLY_ERRORS@;
    let u1 = SPAN_CLOSE@;
    let u2 = u1 + DASHBOARD_3B@;
    let u3 = u2 + search_value_text(s.q);
    let u4 = u3 + DASHBOARD_4@;
    let u5 = u4 + flag_text(s.page_size == 20, SELECTED@);
    let u6 = u5 + DASHBOARD_5@;
    let u7 = u6 + flag_text(s.page_size == 50, SELECTED@);
    let u8 = u7 + DASHBOARD_6@;
    let u9 = u8 + flag_text(s.page_size == 100, SELECTED@);
    let u10 = u9 + DASHBOARD_7@;
    let u11 = u10 + decimal_digits(s.page as nat);
    let u12 = u11 + DASHBOARD_8@;
    let u13 = u12 + decimal_digits(s.page_size as nat);
    let u14 = u13 + DASHBOARD_9@;
    let w1 = head + u1;
    let w2 = w1 + DASHBOARD_3B@;
    assert(w2 =~= head + u2);
    let w3 = w2 + search_value_text(s.q);
    assert(w3 =~= head + u3);
    let w4 = w3 + DASHBOARD_4@;
    assert(w4 =~= head + u4);
    let w5 = w4 + flag_text(s.page_size == 20, SELECTED@);
    assert(w5 =~= head + u5);
    let w6 = w5 + DASHBOARD_5@;
    assert(w6 =~= head + u6);
    let w7 = w6 + flag_text(s.page_size == 50, SELECTED@);
    assert(w7 =~= head + u7);
    let w8 = w7 + DASHBOARD_6@;
    assert(w8 =~= head + u8);
    let w9 = w8 + flag_text(s.page_size == 100, SELECTED@);
    assert(w9 =~= head + u9);
    let w10 = w9 + DASHBOARD_7@;
    assert(w10 =~= head + u10);
    let w11 = w10 + decimal_digits(s.page as nat);
    assert(w11 =~= head + u11);
    let w12 = w11 + DASHBOARD_8@;
    assert(w12 =~= head + u12);
    let w13 = w12 + decimal_digits(s.page_size as nat);
    assert(w13 =~= head + u13);
    let w14 = w13 + DASHBOARD_9@;
    assert(w14 =~= head + u14);
    assert(w14 == dashboard_page_text(models, providers, s));
    assert(u14 == page_tail_text(s));
}

proof fn lemma_checked_box_facts()
    ensures
        checked_box_text().len() > 0,
        checked_box_text()[0] == '<',
        forall|i: int| 0 <= i < checked_box_text().len() ==> checked_box_text()[i] != 'O',
        checked_box_text() == CHECKBOX_OPEN@ + ERRORS_CHECKBOX@ + DASHBOARD_3@,
{
    reveal_strlit("<input type=\"checkbox\" ");
    reveal_strlit("name=\"has_error\" value=\"1\" ");
    reveal_strlit("checked");
    reveal_strlit(" />\n          <span class=\"text-sm\">");
    reveal_strlit("name=\"has_error\" value=\"1\" checked");
    assert(ERRORS_CHECKBOX@ =~= ERRORS_CHECKBOX_NAME@ + CHECKED@);
    assert(checked_box_text() =~= CHECKBOX_OPEN@ + ERRORS_CHECKBOX@ + DASHBOARD_3@);
}

/// The first replacement of the error-log page: the title changes, and the
/// pieces around it, the checkbox and its label stay.
proof fn lemma_retitle(d0: Seq<char>, mid: Seq<char>, tail: Seq<char>)
    requires
        tail.len() > 0,
        tail[0] == '<',
    ensures
        replace_all(
            d0 + TITLE_OPEN@ + DASHBOARD_TITLE@ + TITLE_CLOSE@ + mid + checked_box_text() + ONLY_ERRORS@
                + tail,
            DASHBOARD_TITLE@,
            ERROR_LOGS_TITLE@,
        ) == replace_all(d0, DASHBOARD_TITLE@, ERROR_LOGS_TITLE@) + TITLE_OPEN@ + ERROR_LOGS_TITLE@
            + TITLE_CLOSE@ + replace_all(mid, DASHBOARD_TITLE@, ERROR_LOGS_TITLE@) + checked_box_text()
            + ONLY_ERRORS@ + replace_all(tail, DASHBOARD_TITLE@, ERROR_LOGS_TITLE@),
{
    reveal_strlit("<title>");
    reveal_strlit("</title>");
    reveal_strlit("OpenRouterLocal Dashboard");
    reveal_strlit("Only errors");
    lemma_checked_box_facts();
    let pat = DASHBOARD_TITLE@;
    let rep = ERROR_LOGS_TITLE@;
    let g = checked_box_text();
    let x1 = d0 + TITLE_OPEN@;
    let x2 = x1 + pat;
    let x3 = x2 + TITLE_CLOSE@;
    let x4 = x3 + mid;
    let x5 = x4 + g;
    let x6 = x5 + ONLY_ERRORS@;
    lemma_replace_split(x6, tail, pat, rep);
    lemma_replace_split(x5, ONLY_ERRORS@, pat, rep);
    lemma_replace_split(x4, g, pat, rep);
    assert(x3.last() == '>');
    lemma_replace_split(x3, mid, pat, rep);
    lemma_replace_split(x2, TITLE_CLOSE@, pat, rep);
    lemma_replace_split(x1, pat, pat, rep);
    lemma_replace_split(d0, TITLE_OPEN@, pat, rep);
    lemma_replace_whole(pat, rep);
    assert forall|j: int| 0 <= j && j + pat.len() <= g.len() implies !(#[trigger] occurs_at(
        g,
        pat,
        j,
    )) by {
        if occurs_at(g, pat, j) {
            assert(g.subrange(j, j + pat.len())[0] == pat[0]);
        }
    }
    lemma_replace_unchanged(g, pat, rep);
    assert(replace_all(TITLE_OPEN@, pat, rep) == TITLE_OPEN@);
    assert(replace_all(TITLE_CLOSE@, pat, rep) == TITLE_CLOSE@);
    assert(replace_all(ONLY_ERRORS@, pat, rep) == ONLY_ERRORS@);
}


/// The second replacement of the error-log page: the label changes, and the
/// new title and the checkbox stay.
proof fn lemma_force_label(a: Seq<char>, b: Seq<char>, c: Seq<char>)
    ensures
        replace_all(
            a + TITLE_OPEN@ + ERROR_LOGS_TITLE@ + TITLE_CLOSE@ + b + checked_box_text() + ONLY_ERRORS@
                + c,
            ONLY_ERRORS@,
            ONLY_ERRORS_FORCED@,
        ) == replace_all(a, ONLY_ERRORS@, ONLY_ERRORS_FORCED@) + TITLE_OPEN@ + ERROR_LOGS_TITLE@
            + TITLE_CLOSE@ + replace_all(b, ONLY_ERRORS@, ONLY_ERRORS_FORCED@) + checked_box_text()
            + ONLY_ERRORS_FORCED@ + replace_all(c, ONLY_ERRORS@, ONLY_ERRORS_FORCED@),
{
    reveal_strlit("<title>");
    reveal_strlit("</title>");
    reveal_strlit("OpenRouterLocal Error Logs");
    reveal_strlit("Only errors");
    lemma_checked_box_facts();
    let pat = ONLY_ERRORS@;
    let rep = ONLY_ERRORS_FORCED@;
    let g = checked_box_text();
    let elt = ERROR_LOGS_TITLE@;
    let x1 = a + TITLE_OPEN@;
    let x2 = x1 + elt;
    let x3 = x2 + TITLE_CLOSE@;
    let x4 = x3 + b;
    let x5 = x4 + g;
    let x6 = x5 + pat;
    assert(x6.last() == 's');
    lemma_replace_split(x6, c, pat, rep);
    lemma_replace_split(x5, pat, pat, rep);
    lemma_replace_split(x4, g, pat, rep);
    assert(x3.last() == '>');
    lemma_replace_split(x3, b, pat, rep);
    lemma_replace_split(x2, TITLE_CLOSE@, pat, rep);
    lemma_replace_split(x1, elt, pat, rep);
    lemma_replace_split(a, TITLE_OPEN@, pat, rep);
    lemma_replace_whole(pat, rep);
    assert forall|j: int| 0 <= j && j + pat.len() <= g.len() implies !(#[trigger] occurs_at(
        g,
        pat,
        j,
    )) by {
        if occurs_at(g, pat, j) {
            assert(g.subrange(j, j + pat.len())[0] == pat[0]);
        }
    }
    lemma_replace_unchanged(g, pat, rep);
    assert forall|j: int| 0 <= j && j + pat.len() <= elt.len() implies !(#[trigger] occurs_at(
        elt,
        pat,
        j,
    )) by {
        if occurs_at(elt, pat, j) {
            assert(elt.subrange(j, j + pat.len())[0] == pat[0]);
            assert(elt.subrange(j, j + pat.len())[1] == pat[1]);
        }
    }
    lemma_replace_unchanged(elt, pat, rep);
    assert(replace_all(TITLE_OPEN@, pat, rep) == TITLE_OPEN@);
    assert(replace_all(TITLE_CLOSE@, pat, rep) == TITLE_CLOSE@);
}

/// The third replacement of the error-log page: the checkbox is disabled,
/// and the new title and label stay.
proof fn lemma_disable_box(a: Seq<char>, b: Seq<char>, c: Seq<char>)
    ensures
        replace_all(
            a + TITLE_OPEN@ + ERROR_LOGS_TITLE@ + TITLE_CLOSE@ + b + checked_box_text()
                + ONLY_ERRORS_FORCED@ + c,
            ERRORS_CHECKBOX@,
            ERRORS_CHECKBOX_DISABLED@,
        ) == replace_all(a, ERRORS_CHECKBOX@, ERRORS_CHECKBOX_DISABLED@) + TITLE_OPEN@
            + ERROR_LOGS_TITLE@ + TITLE_CLOSE@ + replace_all(
            b,
            ERRORS_CHECKBOX@,
            ERRORS_CHECKBOX_DISABLED@,
        ) + CHECKBOX_OPEN@ + ERRORS_CHECKBOX_DISABLED@ + DASHBOARD_3@ + ONLY_ERRORS_FORCED@
            + replace_all(c, ERRORS_CHECKBOX@, ERRORS_CHECKBOX_DISABLED@),
{
    reveal_strlit("<title>");
    reveal_strlit("</title>");
    reveal_strlit("OpenRouterLocal Error Logs");
    reveal_strlit("Only errors (forced)");
    reveal_strlit("<input type=\"checkbox\" ");
    reveal_strlit(" />\n          <span class=\"text-sm\">");
    reveal_strlit("name=\"has_error\" value=\"1\" checked");
    lemma_checked_box_facts();
    let pat = ERRORS_CHECKBOX@;
    let rep = ERRORS_CHECKBOX_DISABLED@;
    let d3 = DASHBOARD_3@;
    let x1 = a + TITLE_OPEN@;
    let x2 = x1 + ERROR_LOGS_TITLE@;
    let x3 = x2 + TITLE_CLOSE@;
    let x4 = x3 + b;
    let x5 = x4 + CHECKBOX_OPEN@;
    let x6 = x5 + pat;
    let x7 = x6 + d3;
    let x8 = x7 + ONLY_ERRORS_FORCED@;
    assert(x4 + checked_box_text() =~= x7);
    assert(x8.last() == ')');
    lemma_replace_split(x8, c, pat, rep);
    lemma_replace_split(x7, ONLY_ERRORS_FORCED@, pat, rep);
    assert(x6.last() == 'd');
    lemma_replace_split(x6, d3, pat, rep);
    lemma_replace_split(x5, pat, pat, rep);
    lemma_replace_split(x4, CHECKBOX_OPEN@, pat, rep);
    assert(x3.last() == '>');
    lemma_replace_split(x3, b, pat, rep);
    lemma_replace_split(x2, TITLE_CLOSE@, pat, rep);
    lemma_replace_split(x1, ERROR_LOGS_TITLE@, pat, rep);
    lemma_replace_split(a, TITLE_OPEN@, pat, rep);
    lemma_replace_whole(pat, rep);
    assert forall|j: int| 0 <= j && j + pat.len() <= d3.len() implies !(#[trigger] occurs_at(
        d3,
        pat,
        j,
    )) by {
        if occurs_at(d3, pat, j) {
            assert(d3.subrange(j, j + pat.len())[0] == pat[0]);
        }
    }
    lemma_replace_unchanged(d3, pat, rep);
    assert(replace_all(TITLE_OPEN@, pat, rep) == TITLE_OPEN@);
    assert(replace_all(TITLE_CLOSE@, pat, rep) == TITLE_CLOSE@);
    assert(replace_all(ERROR_LOGS_TITLE@, pat, rep) == ERROR_LOGS_TITLE@);
    assert(replace_all(CHECKBOX_OPEN@, pat, rep) == CHECKBOX_OPEN@);
    assert(replace_all(ONLY_ERRORS_FORCED@, pat, rep) == ONLY_ERRORS_FORCED@);
}

/// The error-log page after its three replacements, with the pieces that
/// the replacements leave unknown named.
pub open spec fn forced_page_text(a3: Seq<char>, b3: Seq<char>, c3: Seq<char>) -> Seq<char> {
    a3 + TITLE_OPEN@ + ERROR_LOGS_TITLE@ + TITLE_CLOSE@ + b3 + CHECKBOX_OPEN@
        + ERRORS_CHECKBOX_DISABLED@ + DASHBOARD_3@ + ONLY_ERRORS_FORCED@ + c3
}

proof fn lemma_forced_title(a3: Seq<char>, b3: Seq<char>, c3: Seq<char>)
    ensures
        has_infix(forced_page_text(a3, b3, c3), TITLE_OPEN@ + ERROR_LOGS_TITLE@ + TITLE_CLOSE@),
{
    let title = TITLE_OPEN@ + ERROR_LOGS_TITLE@ + TITLE_CLOSE@;
    let y1 = a3 + TITLE_OPEN@ + ERROR_LOGS_TITLE@ + TITLE_CLOSE@;
    let rest = b3 + CHECKBOX_OPEN@ + ERRORS_CHECKBOX_DISABLED@ + DASHBOARD_3@ + ONLY_ERRORS_FORCED@
        + c3;
    assert(y1 =~= a3 + title);
    assert(forced_page_text(a3, b3, c3) =~= y1 + rest);
    lemma_infix_of_concat(a3, title, rest);
}

proof fn lemma_forced_box(a3: Seq<char>, b3: Seq<char>, c3: Seq<char>)
    ensures
        has_infix(forced_page_text(a3, b3, c3), ERRORS_CHECKBOX_DISABLED@),
        has_infix(forced_page_text(a3, b3, c3), ONLY_ERRORS_FORCED@),
{
    let y3 = a3 + TITLE_OPEN@ + ERROR_LOGS_TITLE@ + TITLE_CLOSE@ + b3 + CHECKBOX_OPEN@;
    let y4 = y3 + ERRORS_CHECKBOX_DISABLED@;
    let y5 = y4 + DASHBOARD_3@;
    let y6 = y5 + ONLY_ERRORS_FORCED@;
    lemma_infix_of_concat(y3, ERRORS_CHECKBOX_DISABLED@, Seq::<char>::empty());
    assert(y3 + ERRORS_CHECKBOX_DISABLED@ + Seq::<char>::empty() =~= y4);
    lemma_infix_extend(y4, DASHBOARD_3@, ERRORS_CHECKBOX_DISABLED@);
    lemma_infix_extend(y5, ONLY_ERRORS_FORCED@, ERRORS_CHECKBOX_DISABLED@);
    lemma_infix_extend(y6, c3, ERRORS_CHECKBOX_DISABLED@);
    lemma_infix_of_concat(y5, ONLY_ERRORS_FORCED@, c3);
}

/// The error-log page is titled as such, labels its filter as forced, and
/// shows the errors-only box checked and disabled.
pub proof fn lemma_error_page_markers(
    models: Seq<Seq<char>>,
    providers: Seq<Seq<char>>,
    s: SearchView,
)
    ensures
        has_infix(
            dashboard_error_page_text(models, providers, s),
            TITLE_OPEN@ + ERROR_LOGS_TITLE@ + TITLE_CLOSE@,
        ),
        has_infix(dashboard_error_page_text(models, providers, s), ONLY_ERRORS_FORCED@),
        has_infix(dashboard_error_page_text(models, providers, s), ERRORS_CHECKBOX_DISABLED@),
{
    let f = errors_only_view(s);
    let mid = filters_text(models, providers, f);
    let tail = page_tail_text(f);
    let t = DASHBOARD_TITLE@;
    let elt = ERROR_LOGS_TITLE@;
    let only = ONLY_ERRORS@;
    let forced = ONLY_ERRORS_FORCED@;
    let cb = ERRORS_CHECKBOX@;
    let cbd = ERRORS_CHECKBOX_DISABLED@;
    let r0 = dashboard_page_text(models, providers, f);
    assert(dashboard_error_page_text(models, providers, s) == replace_all(
        replace_all(replace_all(r0, t, elt), only, forced),
        cb,
        cbd,
    ));
    lemma_forced_page_pieces(models, providers, f);
    lemma_retitle(DASHBOARD_0@, mid, tail);
    let a = replace_all(DASHBOARD_0@, t, elt);
    let b = replace_all(mid, t, elt);
    let c = replace_all(tail, t, elt);
    let r1 = replace_all(r0, t, elt);
    assert(r1 == a + TITLE_OPEN@ + elt + TITLE_CLOSE@ + b + checked_box_text() + only + c);
    lemma_force_label(a, b, c);
    let a2 = replace_all(a, only, forced);
    let b2 = replace_all(b, only, forced);
    let c2 = replace_all(c, only, forced);
    let r2 = replace_all(r1, only, forced);
    assert(r2 == a2 + TITLE_OPEN@ + elt + TITLE_CLOSE@ + b2 + checked_box_text() + forced + c2);
    lemma_disable_box(a2, b2, c2);
    let a3 = replace_all(a2, cb, cbd);
    let b3 = replace_all(b2, cb, cbd);
    let c3 = replace_all(c2, cb, cbd);
    assert(dashboard_error_page_text(models, providers, s) == forced_page_text(a3, b3, c3));
    lemma_forced_title(a3, b3, c3);
    lemma_forced_box(a3, b3, c3);
}


/// The not-found page for an id is the page for the empty id with the empty
/// `<code></code>` replaced by the escaped id inside the same tags.
pub proof fn lemma_not_found_is_filled_in(id: Seq<char>)
    ensures
        not_found_page_text(id) == replace_all(
            not_found_page_text(seq![]),
            "<code></code>"@,
            "<code>"@ + escape_seq(id) + "</code>"@,
        ),
{
    reveal_strlit("<!doctype html><html><head><meta charset=\"utf-8\"><script src=\"https://cdn.tailwindcss.com\"></script></head><body class=\"bg-slate-100\"><main class=\"max-w-xl mx-auto p-8\"><h1 class=\"text-2xl font-bold\">Request not found</h1><p class=\"mt-2\">");
    reveal_strlit("No request found for id <code>");
    reveal_strlit("No request found for id ");
    reveal_strlit("<code>");
    reveal_strlit("</code>.");
    reveal_strlit("</code>");
    reveal_strlit(".");
    reveal_strlit("<code></code>");
    reveal_strlit("</p><a class=\"text-blue-600 hover:underline\" href=\"/dashboard\">Back</a></main></body></html>");
    let pat = "<code></code>"@;
    let rep = "<code>"@ + escape_seq(id) + "</code>"@;
    let p = "No request found for id "@;
    let q = "."@ + NOT_FOUND_CLOSE@;
    assert(NOT_FOUND_ID_OPEN@ =~= p + "<code>"@);
    assert(NOT_FOUND_ID_CLOSE@ =~= "</code>"@ + "."@);
    assert(escape_seq(Seq::<char>::empty()) =~= Seq::<char>::empty());
    let x1 = NOT_FOUND_OPEN@ + p;
    let x2 = x1 + pat;
    assert(not_found_page_text(seq![]) =~= x2 + q);
    assert(not_found_page_text(id) =~= NOT_FOUND_OPEN@ + p + rep + q);
    lemma_replace_split(x2, q, pat, rep);
    assert(x1.last() == ' ');
    lemma_replace_split(x1, pat, pat, rep);
    lemma_replace_split(NOT_FOUND_OPEN@, p, pat, rep);
    lemma_replace_whole(pat, rep);
    assert forall|j: int| 0 <= j && j + pat.len() <= NOT_FOUND_OPEN@.len() implies !(
    #[trigger] occurs_at(NOT_FOUND_OPEN@, pat, j)) by {
        if occurs_at(NOT_FOUND_OPEN@, pat, j) {
            assert(NOT_FOUND_OPEN@.subrange(j, j + pat.len())[0] == pat[0]);
            assert(NOT_FOUND_OPEN@.subrange(j, j + pat.len())[1] == pat[1]);
        }
    }
    lemma_replace_unchanged(NOT_FOUND_OPEN@, pat, rep);
    assert forall|j: int| 0 <= j && j + pat.len() <= p.len() implies !(#[trigger] occurs_at(
        p,
        pat,
        j,
    )) by {
        if occurs_at(p, pat, j) {
            assert(p.subrange(j, j + pat.len())[0] == pat[0]);
        }
    }
    lemma_replace_unchanged(p, pat, rep);
    assert forall|j: int| 0 <= j && j + pat.len() <= q.len() implies !(#[trigger] occurs_at(
        q,
        pat,
        j,
    )) by {
        if occurs_at(q, pat, j) {
            assert(q.subrange(j, j + pat.len())[0] == pat[0]);
            assert(q.subrange(j, j + pat.len())[1] == pat[1]);
        }
    }
    lemma_replace_unchanged(q, pat, rep);
}

} // verus!
