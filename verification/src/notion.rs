//! The Notion domain adapter: page title and database-name extraction,
//! assembling a fetched page into Markdown, the database-search strategy
//! chain, and the parameters of the page-fetch and page-create calls. All
//! of it reads and builds structural JSON values; the calls themselves are
//! driven by the session's owner.

use vstd::prelude::*;

use crate::blocks::{block_text_of, concat_plain, extract_block_text, plain_concat};
use crate::error::McpError;
use crate::json::{
    json_get, json_rep, keys_ordered, lemma_arr_reps, lemma_obj_rep, lemma_sorted_items_intro,
    lemma_sorted_members_intro, reps_of, sorted_items, sorted_json, sorted_members, JsonValue,
    JsonView,
};
use crate::text::{join_sep, join_strings, str_eq, str_lt, str_views};

verus! {

/// A database the user may save into: its id and display name.
pub struct DatabaseInfo {
    pub id: String,
    pub name: String,
}

impl View for DatabaseInfo {
    type V = (Seq<char>, Seq<char>);

    open spec fn view(&self) -> (Seq<char>, Seq<char>) {
        (self.id@, self.name@)
    }
}

/// The id-and-name views of a sequence of database records.
pub open spec fn info_views(infos: Seq<DatabaseInfo>) -> Seq<(Seq<char>, Seq<char>)> {
    Seq::new(infos.len(), |i: int| infos[i]@)
}

/// The names under `tools` in a tools-list reply, in order; entries
/// without a string name are passed over.
pub open spec fn name_list(tools: Seq<JsonView>) -> Seq<Seq<char>>
    decreases tools.len(),
{
    if tools.len() == 0 {
        Seq::empty()
    } else {
        let rest = name_list(tools.skip(1));
        match json_get(tools[0], "name"@) {
            Option::Some(JsonView::Str(n)) => seq![n] + rest,
            _ => rest,
        }
    }
}

/// The tool names a tools-list reply offers.
pub open spec fn tool_names_of(result: JsonView) -> Seq<Seq<char>> {
    match json_get(result, "tools"@) {
        Option::Some(JsonView::Arr(tools)) => name_list(tools),
        _ => Seq::empty(),
    }
}

/// Read the tool names out of a tools-list reply.
pub fn extract_tool_names(result: &JsonValue) -> (r: Vec<String>)
    ensures
        str_views(r@) == tool_names_of(result@),
{
    let mut out: Vec<String> = Vec::new();
    let tools = match result.get("tools") {
        Some(JsonValue::Arr(tools)) => tools,
        _ => {
            proof {
                assert(str_views(out@) =~= Seq::<Seq<char>>::empty());
            }
            return out;
        },
    };
    proof {
        lemma_arr_reps(*tools);
    }
    let ghost tv = reps_of(tools@);
    let n = tools.len();
    proof {
        assert(tv.skip(0) =~= tv);
    }
    for i in 0..n
        invariant
            tv == reps_of(tools@),
            n == tools@.len(),
            tv.len() == n,
            name_list(tv) == str_views(out@) + name_list(tv.skip(i as int)),
    {
        proof {
            assert(tv.skip(i as int)[0] == tv[i as int]);
            assert(tv[i as int] == json_rep(tools@[i as int]));
            assert(tv.skip(i as int).skip(1) =~= tv.skip(i as int + 1));
        }
        let ghost old_out = out@;
        match tools[i].get("name") {
            Some(JsonValue::Str(name)) => {
                out.push(name.clone());
                proof {
                    assert(str_views(out@) =~= str_views(old_out).push(name@));
                    assert(str_views(old_out) + (seq![name@] + name_list(tv.skip(i as int + 1)))
                        =~= str_views(old_out).push(name@) + name_list(tv.skip(i as int + 1)));
                }
            },
            _ => (),
        }
    }
    proof {
        assert(tv.skip(n as int) =~= Seq::<JsonView>::empty());
        assert(str_views(out@) + Seq::<Seq<char>>::empty() =~= str_views(out@));
    }
    out
}

/// Whether the name occurs among the tools.
pub open spec fn contains_name(tools: Seq<Seq<char>>, name: Seq<char>) -> bool {
    exists|i: int| 0 <= i < tools.len() && tools[i] == name
}

/// The search tool the adapter uses: the first of the known aliases that
/// the far end offers.
pub open spec fn search_tool_of(tools: Seq<Seq<char>>) -> Option<Seq<char>> {
    if contains_name(tools, "API-post-search"@) {
        Option::Some("API-post-search"@)
    } else if contains_name(tools, "search-notion"@) {
        Option::Some("search-notion"@)
    } else if contains_name(tools, "notion_search"@) {
        Option::Some("notion_search"@)
    } else if contains_name(tools, "API-search"@) {
        Option::Some("API-search"@)
    } else if contains_name(tools, "search"@) {
        Option::Some("search"@)
    } else if contains_name(tools, "notion-search"@) {
        Option::Some("notion-search"@)
    } else {
        Option::None
    }
}

/// Whether the named tool is offered.
fn contains_tool(tools: &Vec<String>, name: &str) -> (r: bool)
    ensures
        r == contains_name(str_views(tools@), name@),
{
    let n = tools.len();
    for i in 0..n
        invariant
            n == tools@.len(),
            forall|j: int| 0 <= j < i ==> str_views(tools@)[j] != name@,
    {
        if str_eq(tools[i].as_str(), name) {
            proof {
                assert(str_views(tools@)[i as int] == name@);
            }
            return true;
        }
    }
    false
}

/// Pick the search tool among the offered ones, by the fixed alias
/// priority.
pub fn pick_search_tool(tools: &Vec<String>) -> (r: Option<String>)
    ensures
        match r {
            Some(s) => search_tool_of(str_views(tools@)) == Option::Some(s@),
            None => search_tool_of(str_views(tools@)) is None,
        },
{
    if contains_tool(tools, "API-post-search") {
        Some(String::from_str("API-post-search"))
    } else if contains_tool(tools, "search-notion") {
        Some(String::from_str("search-notion"))
    } else if contains_tool(tools, "notion_search") {
        Some(String::from_str("notion_search"))
    } else if contains_tool(tools, "API-search") {
        Some(String::from_str("API-search"))
    } else if contains_tool(tools, "search") {
        Some(String::from_str("search"))
    } else if contains_tool(tools, "notion-search") {
        Some(String::from_str("notion-search"))
    } else {
        None
    }
}

/// The parameters of each search attempt: the object filter first, the
/// plain string filter second, the bare query last.
pub open spec fn search_params_rep(query: Seq<char>, attempt: u8) -> JsonView {
    if attempt == 0 {
        JsonView::Obj(
            seq![
                (
                    "filter"@,
                    JsonView::Obj(
                        seq![
                            ("property"@, JsonView::Str("object"@)),
                            ("value"@, JsonView::Str("database"@)),
                        ],
                    ),
                ),
                ("query"@, JsonView::Str(query)),
            ],
        )
    } else if attempt == 1 {
        JsonView::Obj(
            seq![("filter"@, JsonView::Str("database"@)), ("query"@, JsonView::Str(query))],
        )
    } else {
        JsonView::Obj(seq![("query"@, JsonView::Str(query))])
    }
}

/// Build the parameters of the given search attempt.
pub fn search_params(query: &str, attempt: u8) -> (v: JsonValue)
    ensures
        v@ == search_params_rep(query@, attempt),
        sorted_json(v@),
{
    let mut entries: Vec<(String, JsonValue)> = Vec::new();
    if attempt == 0 {
        let mut filter_entries: Vec<(String, JsonValue)> = Vec::new();
        filter_entries.push((
            String::from_str("property"),
            JsonValue::Str(String::from_str("object")),
        ));
        filter_entries.push((
            String::from_str("value"),
            JsonValue::Str(String::from_str("database")),
        ));
        proof {
            lemma_obj_rep(filter_entries);
        }
        let filter = JsonValue::Obj(filter_entries);
        entries.push((String::from_str("filter"), filter));
        entries.push((String::from_str("query"), JsonValue::Str(query.to_owned())));
        proof {
            lemma_obj_rep(entries);
        }
        let v = JsonValue::Obj(entries);
        proof {
            reveal_strlit("property");
            reveal_strlit("value");
            reveal_strlit("filter");
            reveal_strlit("query");
            let fes = match filter@ {
                JsonView::Obj(inner) => inner,
                _ => Seq::empty(),
            };
            assert(fes =~= seq![
                ("property"@, JsonView::Str("object"@)),
                ("value"@, JsonView::Str("database"@)),
            ]);
            assert(str_lt("property"@, "value"@));
            assert(keys_ordered(fes));
            assert(forall|i: int| 0 <= i < fes.len() ==> sorted_json((#[trigger] fes[i]).1));
            lemma_sorted_members_intro(fes);
            assert(sorted_json(filter@));
            let es = match v@ {
                JsonView::Obj(inner) => inner,
                _ => Seq::empty(),
            };
            assert(es =~= seq![("filter"@, filter@), ("query"@, JsonView::Str(query@))]);
            assert(str_lt("filter"@, "query"@));
            assert(keys_ordered(es));
            assert(forall|i: int| 0 <= i < es.len() ==> sorted_json((#[trigger] es[i]).1));
            lemma_sorted_members_intro(es);
            assert(sorted_json(v@));
        }
        v
    } else if attempt == 1 {
        entries.push((String::from_str("filter"), JsonValue::Str(String::from_str("database"))));
        entries.push((String::from_str("query"), JsonValue::Str(query.to_owned())));
        proof {
            lemma_obj_rep(entries);
        }
        let v = JsonValue::Obj(entries);
        proof {
            reveal_strlit("filter");
            reveal_strlit("query");
            let es = match v@ {
                JsonView::Obj(inner) => inner,
                _ => Seq::empty(),
            };
            assert(es =~= seq![
                ("filter"@, JsonView::Str("database"@)),
                ("query"@, JsonView::Str(query@)),
            ]);
            assert(str_lt("filter"@, "query"@));
            assert(keys_ordered(es));
            assert(forall|i: int| 0 <= i < es.len() ==> sorted_json((#[trigger] es[i]).1));
            lemma_sorted_members_intro(es);
            assert(sorted_json(v@));
        }
        v
    } else {
        entries.push((String::from_str("query"), JsonValue::Str(query.to_owned())));
        proof {
            lemma_obj_rep(entries);
        }
        let v = JsonValue::Obj(entries);
        proof {
            reveal_strlit("query");
            let es = match v@ {
                JsonView::Obj(inner) => inner,
                _ => Seq::empty(),
            };
            assert(es =~= seq![("query"@, JsonView::Str(query@))]);
            assert(keys_ordered(es));
            assert(forall|i: int| 0 <= i < es.len() ==> sorted_json((#[trigger] es[i]).1));
            lemma_sorted_members_intro(es);
            assert(sorted_json(v@));
        }
        v
    }
}

/// What the search fallback chain does next.
pub enum SearchStep {
    /// The attempt succeeded with this reply.
    Done(JsonValue),
    /// The attempt failed; try the call shape with this number next.
    Retry(u8),
    /// The last attempt failed; its failure propagates.
    Fail(McpError),
}

/// Decide the next step of the three-shape search chain: a success wins,
/// a failed attempt falls back to the next shape, and the last shape's
/// failure propagates.
pub fn search_step(attempt: u8, outcome: Result<JsonValue, McpError>) -> (r: SearchStep)
    ensures
        outcome matches Ok(v) ==> (r matches SearchStep::Done(w) && w@ == v@),
        (outcome is Err && attempt < 2) ==> (r matches SearchStep::Retry(a) && a == attempt + 1),
        (outcome is Err && attempt >= 2) ==> (outcome matches Err(e) && r matches SearchStep::Fail(
            e2,
        ) && e2 == e),
{
    match outcome {
        Ok(v) => SearchStep::Done(v),
        Err(e) => {
            if attempt < 2 {
                SearchStep::Retry(attempt + 1)
            } else {
                SearchStep::Fail(e)
            }
        },
    }
}

/// The display name of a database record: its title rich text, or the
/// untitled placeholder when that is missing or empty.
pub open spec fn db_name_of(item: JsonView) -> Seq<char> {
    match json_get(item, "title"@) {
        Option::Some(JsonView::Arr(parts)) => if plain_concat(parts).len() > 0 {
            plain_concat(parts)
        } else {
            "Untitled"@
        },
        _ => "Untitled"@,
    }
}

/// Read a database record's display name.
pub fn extract_database_name(item: &JsonValue) -> (r: String)
    ensures
        r@ == db_name_of(item@),
{
    let parts = match item.get("title") {
        Some(JsonValue::Arr(parts)) => parts,
        _ => {
            return String::from_str("Untitled");
        },
    };
    proof {
        lemma_arr_reps(*parts);
    }
    let name = concat_plain(parts);
    if name.unicode_len() == 0 {
        return String::from_str("Untitled");
    }
    name
}

/// The records of a search reply that are kept: each result with a string
/// id, filtered to object type `database` unless the query was empty or
/// the record names no object type.
pub open spec fn db_entries(items: Seq<JsonView>, query_empty: bool) -> Seq<
    (Seq<char>, Seq<char>),
>
    decreases items.len(),
{
    if items.len() == 0 {
        Seq::empty()
    } else {
        let rest = db_entries(items.skip(1), query_empty);
        let ot = match json_get(items[0], "object"@) {
            Option::Some(JsonView::Str(o)) => o,
            _ => Seq::<char>::empty(),
        };
        if ot == "database"@ || query_empty || ot.len() == 0 {
            match json_get(items[0], "id"@) {
                Option::Some(JsonView::Str(id)) => seq![(id, db_name_of(items[0]))] + rest,
                _ => rest,
            }
        } else {
            rest
        }
    }
}

/// The databases a search reply yields.
pub open spec fn search_hits(result: JsonView, query_empty: bool) -> Seq<(Seq<char>, Seq<char>)> {
    match json_get(result, "results"@) {
        Option::Some(JsonView::Arr(items)) => db_entries(items, query_empty),
        _ => Seq::empty(),
    }
}

/// Filter a search reply down to its database records.
pub fn filter_search_results(result: &JsonValue, query_empty: bool) -> (r: Vec<DatabaseInfo>)
    ensures
        info_views(r@) == search_hits(result@, query_empty),
{
    let mut out: Vec<DatabaseInfo> = Vec::new();
    let items = match result.get("results") {
        Some(JsonValue::Arr(items)) => items,
        _ => {
            proof {
                assert(info_views(out@) =~= Seq::<(Seq<char>, Seq<char>)>::empty());
            }
            return out;
        },
    };
    proof {
        lemma_arr_reps(*items);
    }
    let ghost iv = reps_of(items@);
    let n = items.len();
    proof {
        assert(iv.skip(0) =~= iv);
    }
    for i in 0..n
        invariant
            iv == reps_of(items@),
            n == items@.len(),
            iv.len() == n,
            db_entries(iv, query_empty) == info_views(out@) + db_entries(
                iv.skip(i as int),
                query_empty,
            ),
    {
        proof {
            assert(iv.skip(i as int)[0] == iv[i as int]);
            assert(iv[i as int] == json_rep(items@[i as int]));
            assert(iv.skip(i as int).skip(1) =~= iv.skip(i as int + 1));
        }
        let keep = if query_empty {
            true
        } else {
            match items[i].get("object") {
                Some(JsonValue::Str(o)) => str_eq(o.as_str(), "database") || o.unicode_len() == 0,
                _ => true,
            }
        };
        let ghost old_out = out@;
        if keep {
            match items[i].get("id") {
                Some(JsonValue::Str(id)) => {
                    let name = extract_database_name(&items[i]);
                    out.push(DatabaseInfo { id: id.clone(), name });
                    proof {
                        assert(info_views(out@) =~= info_views(old_out).push(
                            (id@, db_name_of(iv[i as int])),
                        ));
                        assert(info_views(old_out) + (seq![(id@, db_name_of(iv[i as int]))]
                            + db_entries(iv.skip(i as int + 1), query_empty)) =~= info_views(out@)
                            + db_entries(iv.skip(i as int + 1), query_empty));
                    }
                },
                _ => (),
            }
        }
    }
    proof {
        assert(iv.skip(n as int) =~= Seq::<JsonView>::empty());
        assert(info_views(out@) + Seq::<(Seq<char>, Seq<char>)>::empty() =~= info_views(out@));
    }
    out
}

/// The title a property carries, when it is the title property and its
/// rich text is not empty.
pub open spec fn prop_title(prop: JsonView) -> Option<Seq<char>> {
    if json_get(prop, "type"@) == Option::Some(JsonView::Str("title"@)) {
        match json_get(prop, "title"@) {
            Option::Some(JsonView::Arr(parts)) => if plain_concat(parts).len() > 0 {
                Option::Some(plain_concat(parts))
            } else {
                Option::None
            },
            _ => Option::None,
        }
    } else {
        Option::None
    }
}

/// The first property, in order, that yields a title.
pub open spec fn title_scan(entries: Seq<(Seq<char>, JsonView)>) -> Option<Seq<char>>
    decreases entries.len(),
{
    if entries.len() == 0 {
        Option::None
    } else {
        match prop_title(entries[0].1) {
            Option::Some(t) => Option::Some(t),
            Option::None => title_scan(entries.skip(1)),
        }
    }
}

/// The page's title: the first property of type `title` with text.
pub open spec fn page_title_of(page: JsonView) -> Option<Seq<char>> {
    match json_get(page, "properties"@) {
        Option::Some(JsonView::Obj(entries)) => title_scan(entries),
        _ => Option::None,
    }
}

/// Read the page's title out of a page reply.
pub fn extract_page_title(page: &JsonValue) -> (r: Option<String>)
    ensures
        match page_title_of(page@) {
            Option::Some(t) => r matches Some(s) && s@ == t,
            Option::None => r is None,
        },
{
    let entries = match page.get("properties") {
        Some(JsonValue::Obj(entries)) => entries,
        _ => {
            return None;
        },
    };
    proof {
        lemma_obj_rep(*entries);
    }
    let ghost ev: Seq<(Seq<char>, JsonView)> = match json_rep(JsonValue::Obj(*entries)) {
        JsonView::Obj(inner) => inner,
        _ => Seq::empty(),
    };
    let n = entries.len();
    proof {
        assert(ev.skip(0) =~= ev);
    }
    for i in 0..n
        invariant
            n == entries@.len(),
            ev.len() == n,
            forall|j: int|
                0 <= j < n ==> #[trigger] ev[j] == (entries@[j].0@, json_rep(entries@[j].1)),
            page_title_of(page@) == title_scan(ev),
            title_scan(ev) == title_scan(ev.skip(i as int)),
    {
        proof {
            assert(ev.skip(i as int)[0] == ev[i as int]);
            assert(ev.skip(i as int).skip(1) =~= ev.skip(i as int + 1));
        }
        let prop = &entries[i].1;
        let is_title = match prop.get("type") {
            Some(JsonValue::Str(t)) => str_eq(t.as_str(), "title"),
            _ => false,
        };
        if is_title {
            match prop.get("title") {
                Some(JsonValue::Arr(parts)) => {
                    proof {
                        lemma_arr_reps(*parts);
                    }
                    let t = concat_plain(parts);
                    if t.unicode_len() > 0 {
                        return Some(t);
                    }
                },
                _ => (),
            }
        }
    }
    proof {
        assert(ev.skip(n as int) =~= Seq::<(Seq<char>, JsonView)>::empty());
    }
    None
}

/// The Markdown lines a fetched block list renders to, in order.
pub open spec fn rendered(items: Seq<JsonView>) -> Seq<Seq<char>>
    decreases items.len(),
{
    if items.len() == 0 {
        Seq::empty()
    } else {
        let rest = rendered(items.skip(1));
        match block_text_of(items[0]) {
            Option::Some(t) => seq![t] + rest,
            Option::None => rest,
        }
    }
}

/// The parts a fetched page assembles from: a title line and a blank line
/// when the page has a title, then each block's Markdown line.
pub open spec fn page_parts(page: JsonView, blocks: JsonView) -> Seq<Seq<char>> {
    (match page_title_of(page) {
        Option::Some(t) => seq!["# "@ + t, Seq::<char>::empty()],
        Option::None => Seq::empty(),
    }) + (match json_get(blocks, "results"@) {
        Option::Some(JsonView::Arr(items)) => rendered(items),
        _ => Seq::empty(),
    })
}

/// An object's member names, in order.
pub open spec fn keys_of(v: JsonView) -> Seq<Seq<char>> {
    match v {
        JsonView::Obj(entries) => Seq::new(entries.len(), |i: int| entries[i].0),
        _ => Seq::empty(),
    }
}

/// The diagnostic shown when a page yields no content at all: the member
/// names of both replies, to aid debugging against an undocumented schema.
pub open spec fn keys_diag(page: JsonView, blocks: JsonView) -> Seq<char> {
    "page keys: ["@ + join_sep(keys_of(page), ", "@) + "]; block keys: ["@ + join_sep(
        keys_of(blocks),
        ", "@,
    ) + "]"@
}

/// An object's member names as strings.
fn obj_keys(v: &JsonValue) -> (r: Vec<String>)
    ensures
        str_views(r@) == keys_of(v@),
{
    let mut out: Vec<String> = Vec::new();
    match v {
        JsonValue::Obj(entries) => {
            proof {
                lemma_obj_rep(*entries);
            }
            let n = entries.len();
            for i in 0..n
                invariant
                    n == entries@.len(),
                    out@.len() == i,
                    forall|j: int| 0 <= j < i ==> #[trigger] out@[j]@ == entries@[j].0@,
                    v is Obj,
                    *v == JsonValue::Obj(*entries),
            {
                out.push(entries[i].0.clone());
            }
            proof {
                assert(str_views(out@) =~= keys_of(v@));
            }
            out
        },
        _ => {
            proof {
                assert(str_views(out@) =~= Seq::<Seq<char>>::empty());
            }
            out
        },
    }
}

/// Assemble a fetched page into Markdown: the title as a heading, a blank
/// line, then each block's line, joined with newlines. A page with neither
/// title nor any block text fails with the member-name diagnostic.
pub fn page_markdown(page: &JsonValue, blocks: &JsonValue) -> (r: Result<String, McpError>)
    ensures
        page_parts(page@, blocks@).len() == 0 ==> (r matches Err(McpError::NoContent(d)) && d@
            == keys_diag(page@, blocks@)),
        page_parts(page@, blocks@).len() > 0 ==> (r matches Ok(s) && s@ == join_sep(
            page_parts(page@, blocks@),
            "\n"@,
        )),
{
    let ghost want = page_parts(page@, blocks@);
    let mut parts: Vec<String> = Vec::new();
    match extract_page_title(page) {
        Some(t) => {
            parts.push(String::from_str("# ").concat(t.as_str()));
            parts.push(String::new());
        },
        None => (),
    }
    let ghost title_parts = str_views(parts@);
    match blocks.get("results") {
        Some(JsonValue::Arr(items)) => {
            proof {
                lemma_arr_reps(*items);
            }
            let ghost iv = reps_of(items@);
            let n = items.len();
            proof {
                assert(iv.skip(0) =~= iv);
                assert(title_parts + rendered(iv.skip(0)) =~= title_parts + rendered(iv));
            }
            for i in 0..n
                invariant
                    iv == reps_of(items@),
                    n == items@.len(),
                    iv.len() == n,
                    want == page_parts(page@, blocks@),
                    want == str_views(parts@) + rendered(iv.skip(i as int)),
            {
                proof {
                    assert(iv.skip(i as int)[0] == iv[i as int]);
                    assert(iv[i as int] == json_rep(items@[i as int]));
                    assert(iv.skip(i as int).skip(1) =~= iv.skip(i as int + 1));
                }
                let ghost old_parts = str_views(parts@);
                match extract_block_text(&items[i]) {
                    Some(t) => {
                        let ghost tv = t@;
                        parts.push(t);
                        proof {
                            assert(str_views(parts@) =~= old_parts.push(tv));
                            assert(old_parts + (seq![tv] + rendered(iv.skip(i as int + 1)))
                                =~= old_parts.push(tv) + rendered(iv.skip(i as int + 1)));
                        }
                    },
                    None => (),
                }
            }
            proof {
                assert(iv.skip(n as int) =~= Seq::<JsonView>::empty());
                assert(str_views(parts@) + Seq::<Seq<char>>::empty() =~= str_views(parts@));
            }
        },
        _ => {
            proof {
                assert(title_parts + Seq::<Seq<char>>::empty() =~= title_parts);
            }
        },
    }
    proof {
        assert(want == str_views(parts@));
    }
    if parts.len() == 0 {
        let page_keys = obj_keys(page);
        let block_keys = obj_keys(blocks);
        let d = String::from_str("page keys: [").concat(
            join_strings(&page_keys, ", ").as_str(),
        ).concat("]; block keys: [").concat(join_strings(&block_keys, ", ").as_str()).concat("]");
        proof {
            assert(d@ =~= keys_diag(page@, blocks@));
        }
        return Err(McpError::NoContent(d));
    }
    Ok(join_strings(&parts, "\n"))
}

/// The parameters of the page-retrieval call.
pub open spec fn page_params_rep(page_id: Seq<char>) -> JsonView {
    JsonView::Obj(seq![("page_id"@, JsonView::Str(page_id))])
}

/// Build the parameters of the page-retrieval call.
pub fn page_params(page_id: &str) -> (v: JsonValue)
    ensures
        v@ == page_params_rep(page_id@),
        sorted_json(v@),
{
    let mut entries: Vec<(String, JsonValue)> = Vec::new();
    entries.push((String::from_str("page_id"), JsonValue::Str(page_id.to_owned())));
    proof {
        lemma_obj_rep(entries);
    }
    let v = JsonValue::Obj(entries);
    proof {
        reveal_strlit("page_id");
        let es = match v@ {
            JsonView::Obj(inner) => inner,
            _ => Seq::empty(),
        };
        assert(es =~= seq![("page_id"@, JsonView::Str(page_id@))]);
        assert(keys_ordered(es));
        assert(forall|i: int| 0 <= i < es.len() ==> sorted_json((#[trigger] es[i]).1));
        lemma_sorted_members_intro(es);
        assert(sorted_json(v@));
    }
    v
}

/// The parameters of the block-children call.
pub open spec fn block_children_params_rep(block_id: Seq<char>) -> JsonView {
    JsonView::Obj(seq![("block_id"@, JsonView::Str(block_id))])
}

/// Build the parameters of the block-children call.
pub fn block_children_params(block_id: &str) -> (v: JsonValue)
    ensures
        v@ == block_children_params_rep(block_id@),
        sorted_json(v@),
{
    let mut entries: Vec<(String, JsonValue)> = Vec::new();
    entries.push((String::from_str("block_id"), JsonValue::Str(block_id.to_owned())));
    proof {
        lemma_obj_rep(entries);
    }
    let v = JsonValue::Obj(entries);
    proof {
        reveal_strlit("block_id");
        let es = match v@ {
            JsonView::Obj(inner) => inner,
            _ => Seq::empty(),
        };
        assert(es =~= seq![("block_id"@, JsonView::Str(block_id@))]);
        assert(keys_ordered(es));
        assert(forall|i: int| 0 <= i < es.len() ==> sorted_json((#[trigger] es[i]).1));
        lemma_sorted_members_intro(es);
        assert(sorted_json(v@));
    }
    v
}

/// The parameters of the page-creation call: the block children, the
/// parent database, and a single title property.
pub open spec fn create_page_params_rep(
    db_id: Seq<char>,
    title: Seq<char>,
    children: Seq<JsonView>,
) -> JsonView {
    JsonView::Obj(
        seq![
            ("children"@, JsonView::Arr(children)),
            ("parent"@, JsonView::Obj(seq![("database_id"@, JsonView::Str(db_id))])),
            (
                "properties"@,
                JsonView::Obj(
                    seq![
                        (
                            "title"@,
                            JsonView::Obj(
                                seq![
                                    (
                                        "title"@,
                                        JsonView::Arr(
                                            seq![
                                                JsonView::Obj(
                                                    seq![
                                                        (
                                                            "text"@,
                                                            JsonView::Obj(
                                                                seq![("content"@, JsonView::Str(title))],
                                                            ),
                                                        ),
                                                    ],
                                                ),
                                            ],
                                        ),
                                    ),
                                ],
                            ),
                        ),
                    ],
                ),
            ),
        ],
    )
}

/// Build the parameters of the page-creation call.
pub fn create_page_params(db_id: &str, title: &str, children: Vec<JsonValue>) -> (v: JsonValue)
    requires
        sorted_items(reps_of(children@)),
    ensures
        v@ == create_page_params_rep(db_id@, title@, reps_of(children@)),
        sorted_json(v@),
{
    let ghost cv = reps_of(children@);
    proof {
        lemma_arr_reps(children);
    }
    let children_arr = JsonValue::Arr(children);
    let mut parent_entries: Vec<(String, JsonValue)> = Vec::new();
    parent_entries.push((String::from_str("database_id"), JsonValue::Str(db_id.to_owned())));
    proof {
        lemma_obj_rep(parent_entries);
    }
    let parent = JsonValue::Obj(parent_entries);
    let mut content_entries: Vec<(String, JsonValue)> = Vec::new();
    content_entries.push((String::from_str("content"), JsonValue::Str(title.to_owned())));
    proof {
        lemma_obj_rep(content_entries);
    }
    let content_obj = JsonValue::Obj(content_entries);
    let mut text_entries: Vec<(String, JsonValue)> = Vec::new();
    text_entries.push((String::from_str("text"), content_obj));
    proof {
        lemma_obj_rep(text_entries);
    }
    let text_item = JsonValue::Obj(text_entries);
    let mut arr_items: Vec<JsonValue> = Vec::new();
    arr_items.push(text_item);
    proof {
        lemma_arr_reps(arr_items);
    }
    let title_arr = JsonValue::Arr(arr_items);
    let mut inner_entries: Vec<(String, JsonValue)> = Vec::new();
    inner_entries.push((String::from_str("title"), title_arr));
    proof {
        lemma_obj_rep(inner_entries);
    }
    let title_prop = JsonValue::Obj(inner_entries);
    let mut props_entries: Vec<(String, JsonValue)> = Vec::new();
    props_entries.push((String::from_str("title"), title_prop));
    proof {
        lemma_obj_rep(props_entries);
    }
    let props = JsonValue::Obj(props_entries);
    let mut entries: Vec<(String, JsonValue)> = Vec::new();
    entries.push((String::from_str("children"), children_arr));
    entries.push((String::from_str("parent"), parent));
    entries.push((String::from_str("properties"), props));
    proof {
        lemma_obj_rep(entries);
    }
    let v = JsonValue::Obj(entries);
    proof {
        reveal_strlit("children");
        reveal_strlit("parent");
        reveal_strlit("properties");
        reveal_strlit("database_id");
        reveal_strlit("content");
        reveal_strlit("text");
        reveal_strlit("title");
        let parent_es = match parent@ {
            JsonView::Obj(inner) => inner,
            _ => Seq::empty(),
        };
        assert(parent_es =~= seq![("database_id"@, JsonView::Str(db_id@))]);
        assert(keys_ordered(parent_es));
        assert(forall|i: int|
            0 <= i < parent_es.len() ==> sorted_json((#[trigger] parent_es[i]).1));
        lemma_sorted_members_intro(parent_es);
        assert(sorted_json(parent@));
        let content_es = match content_obj@ {
            JsonView::Obj(inner) => inner,
            _ => Seq::empty(),
        };
        assert(content_es =~= seq![("content"@, JsonView::Str(title@))]);
        assert(keys_ordered(content_es));
        assert(forall|i: int|
            0 <= i < content_es.len() ==> sorted_json((#[trigger] content_es[i]).1));
        lemma_sorted_members_intro(content_es);
        assert(sorted_json(content_obj@));
        let text_es = match text_item@ {
            JsonView::Obj(inner) => inner,
            _ => Seq::empty(),
        };
        assert(text_es =~= seq![("text"@, content_obj@)]);
        assert(keys_ordered(text_es));
        assert(forall|i: int| 0 <= i < text_es.len() ==> sorted_json((#[trigger] text_es[i]).1));
        lemma_sorted_members_intro(text_es);
        assert(sorted_json(text_item@));
        let arr_is = match title_arr@ {
            JsonView::Arr(inner) => inner,
            _ => Seq::empty(),
        };
        assert(arr_is =~= seq![text_item@]);
        assert(forall|i: int| 0 <= i < arr_is.len() ==> sorted_json(#[trigger] arr_is[i]));
        lemma_sorted_items_intro(arr_is);
        assert(sorted_json(title_arr@));
        let inner_es = match title_prop@ {
            JsonView::Obj(inner) => inner,
            _ => Seq::empty(),
        };
        assert(inner_es =~= seq![("title"@, title_arr@)]);
        assert(keys_ordered(inner_es));
        assert(forall|i: int| 0 <= i < inner_es.len() ==> sorted_json((#[trigger] inner_es[i]).1));
        lemma_sorted_members_intro(inner_es);
        assert(sorted_json(title_prop@));
        let props_es = match props@ {
            JsonView::Obj(inner) => inner,
            _ => Seq::empty(),
        };
        assert(props_es =~= seq![("title"@, title_prop@)]);
        assert(keys_ordered(props_es));
        assert(forall|i: int| 0 <= i < props_es.len() ==> sorted_json((#[trigger] props_es[i]).1));
        lemma_sorted_members_intro(props_es);
        assert(sorted_json(props@));
        assert(sorted_json(children_arr@)) by {
            assert(children_arr@ == JsonView::Arr(cv));
        }
        let es = match v@ {
            JsonView::Obj(inner) => inner,
            _ => Seq::empty(),
        };
        assert(es =~= seq![
            ("children"@, children_arr@),
            ("parent"@, parent@),
            ("properties"@, props@),
        ]);
        assert(str_lt("children"@, "parent"@));
        assert(str_lt("children"@, "properties"@));
        assert(str_lt("parent"@.skip(1), "properties"@.skip(1)));
        assert(str_lt("parent"@, "properties"@));
        assert(keys_ordered(es));
        assert(forall|i: int| 0 <= i < es.len() ==> sorted_json((#[trigger] es[i]).1));
        lemma_sorted_members_intro(es);
        assert(sorted_json(v@));
        assert(v@ == create_page_params_rep(db_id@, title@, cv));
    }
    v
}

/// Read the created page's id out of a creation reply.
pub fn created_page_id(result: &JsonValue) -> (r: Result<String, McpError>)
    ensures
        match json_get(result@, "id"@) {
            Option::Some(JsonView::Str(id)) => r matches Ok(s) && s@ == id,
            _ => r matches Err(McpError::Parse(m)) && m@ == "Failed to get created page ID"@,
        },
{
    match result.get("id") {
        Some(JsonValue::Str(id)) => Ok(id.clone()),
        _ => Err(McpError::Parse(String::from_str("Failed to get created page ID"))),
    }
}

} // verus!
