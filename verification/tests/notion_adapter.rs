//! The Notion domain adapter: id normalization, Markdown and blocks, page
//! assembly, database search, and the recent-database list.

use ainotework::blocks::{extract_block_text, markdown_to_blocks};
use ainotework::error::McpError;
use ainotework::ids::extract_page_id;
use ainotework::json::JsonValue;
use ainotework::notion::{
    block_children_params, create_page_params, created_page_id, extract_database_name,
    extract_page_title, extract_tool_names, filter_search_results, page_markdown, page_params,
    pick_search_tool, search_params, search_step, SearchStep,
};
use ainotework::recent::{add_recent, RecentDatabase};

fn jstr(s: &str) -> JsonValue {
    JsonValue::Str(s.to_string())
}

fn jobj(entries: Vec<(&str, JsonValue)>) -> JsonValue {
    JsonValue::Obj(entries.into_iter().map(|(k, v)| (k.to_string(), v)).collect())
}

fn get<'a>(v: &'a JsonValue, key: &str) -> &'a JsonValue {
    v.get(key).expect("missing key")
}

fn as_str(v: &JsonValue) -> &str {
    match v {
        JsonValue::Str(s) => s.as_str(),
        _ => panic!("not a string"),
    }
}

/// A reply-side rich-text run with the given plain text.
fn plain_run(text: &str) -> JsonValue {
    jobj(vec![("plain_text", jstr(text))])
}

/// A reply-side block of the given type carrying one plain-text run.
fn reply_block(ty: &str, text: &str) -> JsonValue {
    jobj(vec![
        (ty, jobj(vec![("rich_text", JsonValue::Arr(vec![plain_run(text)]))])),
        ("type", jstr(ty)),
    ])
}

#[test]
fn bare_hex_id_is_hyphenated() {
    assert_eq!(
        extract_page_id("0123456789abcdef0123456789abcdef"),
        "01234567-89ab-cdef-0123-456789abcdef"
    );
}

#[test]
fn url_embedded_id_is_hyphenated() {
    assert_eq!(
        extract_page_id("https://www.notion.so/team/My-Page-0123456789abcdef0123456789abcdef?pvs=4"),
        "01234567-89ab-cdef-0123-456789abcdef"
    );
}

#[test]
fn last_of_two_ids_wins() {
    assert_eq!(
        extract_page_id("aaaaaaaaaaaaaaaaaaaaaaaaaaaaaaaa/bbbbbbbbbbbbbbbbbbbbbbbbbbbbbbbb"),
        "bbbbbbbb-bbbb-bbbb-bbbb-bbbbbbbbbbbb"
    );
}

#[test]
fn canonical_id_is_unchanged() {
    assert_eq!(
        extract_page_id("01234567-89ab-cdef-0123-456789abcdef"),
        "01234567-89ab-cdef-0123-456789abcdef"
    );
}

#[test]
fn other_inputs_pass_through_trimmed() {
    assert_eq!(extract_page_id("  hello world  "), "hello world");
    assert_eq!(extract_page_id(""), "");
}

#[test]
fn markdown_lines_become_typed_blocks() {
    let blocks = markdown_to_blocks("# A\n\nhello\n- b\n---\n## C");
    assert_eq!(blocks.len(), 5);
    let types: Vec<&str> = blocks.iter().map(|b| as_str(get(b, "type"))).collect();
    assert_eq!(types, vec!["heading_1", "paragraph", "bulleted_list_item", "divider", "heading_2"]);
    let h1 = get(&blocks[0], "heading_1");
    match get(h1, "rich_text") {
        JsonValue::Arr(runs) => {
            assert_eq!(as_str(get(get(&runs[0], "text"), "content")), "A");
        },
        _ => panic!("expected rich text"),
    }
    assert_eq!(as_str(get(&blocks[0], "object")), "block");
}

#[test]
fn blank_markdown_produces_no_blocks() {
    assert_eq!(markdown_to_blocks("\n\n   \n").len(), 0);
}

#[test]
fn written_lines_read_back_unchanged() {
    // a full write-then-read cycle: the far end echoes the written text as
    // plain-text runs under the same type tag
    for line in ["# Heading", "## Sub", "- bullet", "---", "plain paragraph"] {
        let blocks = markdown_to_blocks(line);
        assert_eq!(blocks.len(), 1);
        let ty = as_str(get(&blocks[0], "type")).to_string();
        let echoed = reply_block(&ty, text_of_line(line));
        let back = extract_block_text(&echoed).expect("renders");
        assert_eq!(back, line);
    }
}

fn text_of_line(line: &str) -> &str {
    if let Some(rest) = line.strip_prefix("## ") {
        rest
    } else if let Some(rest) = line.strip_prefix("# ") {
        rest
    } else if let Some(rest) = line.strip_prefix("- ") {
        rest
    } else {
        line
    }
}

#[test]
fn divider_survives_the_read_direction() {
    let blocks = markdown_to_blocks("---");
    assert_eq!(blocks.len(), 1);
    assert_eq!(as_str(get(&blocks[0], "type")), "divider");
    // the echoed divider carries no rich text; its type alone renders it
    let echoed = jobj(vec![("divider", jobj(vec![])), ("type", jstr("divider"))]);
    assert_eq!(extract_block_text(&echoed).unwrap(), "---");
}

#[test]
fn read_direction_covers_more_types_than_the_write_direction() {
    assert_eq!(extract_block_text(&reply_block("numbered_list_item", "n")).unwrap(), "1. n");
    assert_eq!(extract_block_text(&reply_block("quote", "q")).unwrap(), "> q");
    assert_eq!(extract_block_text(&reply_block("code", "c")).unwrap(), "```\nc\n```");
    assert_eq!(extract_block_text(&reply_block("heading_3", "h")).unwrap(), "### h");
    let mut todo = reply_block("to_do", "t");
    assert_eq!(extract_block_text(&todo).unwrap(), "- [ ] t");
    if let JsonValue::Obj(entries) = &mut todo {
        if let JsonValue::Obj(tc) = &mut entries[0].1 {
            tc.push(("checked".to_string(), JsonValue::Bool(true)));
        }
    }
    assert_eq!(extract_block_text(&todo).unwrap(), "- [x] t");
    assert_eq!(extract_block_text(&reply_block("callout", "free text")).unwrap(), "free text");
}

#[test]
fn empty_text_blocks_render_to_nothing() {
    assert!(extract_block_text(&reply_block("paragraph", "")).is_none());
}

#[test]
fn page_title_takes_the_first_title_property() {
    let page = jobj(vec![(
        "properties",
        jobj(vec![
            ("Tags", jobj(vec![("type", jstr("multi_select"))])),
            (
                "Name",
                jobj(vec![
                    ("type", jstr("title")),
                    ("title", JsonValue::Arr(vec![plain_run("My "), plain_run("Title")])),
                ]),
            ),
        ]),
    )]);
    assert_eq!(extract_page_title(&page).unwrap(), "My Title");
    let untitled = jobj(vec![("properties", jobj(vec![]))]);
    assert!(extract_page_title(&untitled).is_none());
}

#[test]
fn page_with_title_and_no_blocks_is_not_an_error() {
    let page = jobj(vec![(
        "properties",
        jobj(vec![(
            "Name",
            jobj(vec![
                ("type", jstr("title")),
                ("title", JsonValue::Arr(vec![plain_run("My Title")])),
            ]),
        )]),
    )]);
    let blocks = jobj(vec![("results", JsonValue::Arr(vec![]))]);
    assert_eq!(page_markdown(&page, &blocks).unwrap(), "# My Title\n");
}

#[test]
fn page_with_blocks_joins_their_lines() {
    let page = jobj(vec![(
        "properties",
        jobj(vec![(
            "Name",
            jobj(vec![
                ("type", jstr("title")),
                ("title", JsonValue::Arr(vec![plain_run("T")])),
            ]),
        )]),
    )]);
    let blocks = jobj(vec![(
        "results",
        JsonValue::Arr(vec![reply_block("paragraph", "one"), reply_block("heading_2", "two")]),
    )]);
    assert_eq!(page_markdown(&page, &blocks).unwrap(), "# T\n\none\n## two");
}

#[test]
fn empty_page_fails_with_the_key_diagnostic() {
    let page = jobj(vec![("object", jstr("page")), ("id", jstr("x"))]);
    let blocks = jobj(vec![("results", JsonValue::Arr(vec![]))]);
    match page_markdown(&page, &blocks) {
        Err(McpError::NoContent(d)) => {
            assert_eq!(d, "page keys: [object, id]; block keys: [results]");
        },
        _ => panic!("expected the no-content diagnostic"),
    }
}

#[test]
fn tool_names_are_read_in_order() {
    let reply = jobj(vec![(
        "tools",
        JsonValue::Arr(vec![
            jobj(vec![("name", jstr("API-post-search"))]),
            jobj(vec![("description", jstr("no name"))]),
            jobj(vec![("name", jstr("other"))]),
        ]),
    )]);
    assert_eq!(extract_tool_names(&reply), vec!["API-post-search", "other"]);
}

#[test]
fn search_tool_follows_the_alias_priority() {
    let tools = vec!["other".to_string(), "search".to_string(), "search-notion".to_string()];
    assert_eq!(pick_search_tool(&tools).unwrap(), "search-notion");
    assert!(pick_search_tool(&vec!["nothing".to_string()]).is_none());
}

#[test]
fn search_params_take_three_shapes() {
    let p0 = search_params("q", 0);
    assert_eq!(as_str(get(get(&p0, "filter"), "property")), "object");
    assert_eq!(as_str(get(get(&p0, "filter"), "value")), "database");
    assert_eq!(as_str(get(&p0, "query")), "q");
    let p1 = search_params("q", 1);
    assert_eq!(as_str(get(&p1, "filter")), "database");
    let p2 = search_params("q", 2);
    assert!(p2.get("filter").is_none());
    assert_eq!(as_str(get(&p2, "query")), "q");
}

#[test]
fn search_fallback_chain_stops_at_the_last_shape() {
    match search_step(0, Ok(jobj(vec![]))) {
        SearchStep::Done(_) => (),
        _ => panic!("a success wins"),
    }
    match search_step(0, Err(McpError::RequestTimeout)) {
        SearchStep::Retry(1) => (),
        _ => panic!("the first failure falls back"),
    }
    match search_step(1, Err(McpError::RequestTimeout)) {
        SearchStep::Retry(2) => (),
        _ => panic!("the second failure falls back"),
    }
    match search_step(2, Err(McpError::RequestTimeout)) {
        SearchStep::Fail(McpError::RequestTimeout) => (),
        _ => panic!("the last failure propagates"),
    }
}

#[test]
fn empty_query_bypasses_the_object_filter() {
    let result = jobj(vec![(
        "results",
        JsonValue::Arr(vec![
            jobj(vec![
                ("object", jstr("database")),
                ("id", jstr("d1")),
                ("title", JsonValue::Arr(vec![plain_run("First")])),
            ]),
            jobj(vec![("object", jstr("page")), ("id", jstr("p1"))]),
            jobj(vec![("id", jstr("x1"))]),
        ]),
    )]);
    let all = filter_search_results(&result, true);
    let ids: Vec<&str> = all.iter().map(|d| d.id.as_str()).collect();
    assert_eq!(ids, vec!["d1", "p1", "x1"]);
    let filtered = filter_search_results(&result, false);
    let ids: Vec<&str> = filtered.iter().map(|d| d.id.as_str()).collect();
    assert_eq!(ids, vec!["d1", "x1"]);
    assert_eq!(all[0].name, "First");
    assert_eq!(all[1].name, "Untitled");
}

#[test]
fn database_name_defaults_to_untitled() {
    let named = jobj(vec![("title", JsonValue::Arr(vec![plain_run("Notes")]))]);
    assert_eq!(extract_database_name(&named), "Notes");
    let empty = jobj(vec![("title", JsonValue::Arr(vec![]))]);
    assert_eq!(extract_database_name(&empty), "Untitled");
    let missing = jobj(vec![]);
    assert_eq!(extract_database_name(&missing), "Untitled");
}

#[test]
fn create_page_params_carry_parent_title_and_children() {
    let children = markdown_to_blocks("hello");
    let p = create_page_params("db-1", "My Note", children);
    assert_eq!(as_str(get(get(&p, "parent"), "database_id")), "db-1");
    match get(&p, "children") {
        JsonValue::Arr(items) => assert_eq!(items.len(), 1),
        _ => panic!("expected children"),
    }
    let title_prop = get(get(&p, "properties"), "title");
    match get(title_prop, "title") {
        JsonValue::Arr(runs) => {
            assert_eq!(as_str(get(get(&runs[0], "text"), "content")), "My Note");
        },
        _ => panic!("expected the title run"),
    }
}

#[test]
fn created_page_id_is_read_or_failed() {
    let ok = jobj(vec![("id", jstr("new-page"))]);
    assert_eq!(created_page_id(&ok).unwrap(), "new-page");
    let bad = jobj(vec![("object", jstr("page"))]);
    match created_page_id(&bad) {
        Err(McpError::Parse(m)) => assert_eq!(m, "Failed to get created page ID"),
        _ => panic!("expected a failure"),
    }
}

#[test]
fn fetch_params_name_the_target() {
    let p = page_params("pid");
    assert_eq!(as_str(get(&p, "page_id")), "pid");
    let b = block_children_params("bid");
    assert_eq!(as_str(get(&b, "block_id")), "bid");
}

#[test]
fn recent_insertion_moves_to_front_without_duplicating() {
    let list = vec![
        RecentDatabase { id: "a".to_string(), name: "A".to_string() },
        RecentDatabase { id: "b".to_string(), name: "B".to_string() },
        RecentDatabase { id: "c".to_string(), name: "C".to_string() },
    ];
    let r = add_recent(&list, RecentDatabase { id: "b".to_string(), name: "B2".to_string() });
    let ids: Vec<&str> = r.iter().map(|d| d.id.as_str()).collect();
    assert_eq!(ids, vec!["b", "a", "c"]);
    assert_eq!(r[0].name, "B2");
}

#[test]
fn recent_list_never_exceeds_ten_entries() {
    let mut list: Vec<RecentDatabase> = Vec::new();
    for i in 0..15 {
        let db = RecentDatabase { id: format!("id{}", i), name: format!("N{}", i) };
        list = add_recent(&list, db);
        assert!(list.len() <= 10);
    }
    assert_eq!(list.len(), 10);
    assert_eq!(list[0].id, "id14");
    assert_eq!(list[9].id, "id5");
    for i in 0..list.len() {
        for j in (i + 1)..list.len() {
            assert_ne!(list[i].id, list[j].id);
        }
    }
}
