//! Extracting readable text from a fetched web page: the title, then the
//! first content region found among a fixed priority list of selectors,
//! falling back to the whole body. Fetching the page is the caller's; the
//! HTML parsing and selecting is the parser crate's, behind one trusted
//! call; which region wins and how its text is assembled is decided and
//! proved here.

use vstd::prelude::*;

use crate::text::{
    is_blank, is_ws, join_sep, join_strings, spec_blank, str_views, trim_str, trimmed,
};

verus! {

/// What the HTML holds for a selector: for each matched element in
/// document order, its text nodes in order; nothing when the selector text
/// is invalid. A function of the page text and the selector alone.
pub uninterp spec fn selected_texts(html: Seq<char>, selector: Seq<char>) -> Option<
    Seq<Seq<Seq<char>>>,
>;

/// The text-node views of each element.
pub open spec fn element_views(els: Seq<Vec<String>>) -> Seq<Seq<Seq<char>>> {
    Seq::new(els.len(), |i: int| str_views(els[i]@))
}

/// Relies on scraper: `Html::parse_document`, `Selector::parse`, `select`
/// and each element's text-node iterator, whose outcome depends on the
/// page text and the selector alone.
#[verifier::external_body]
fn select_texts(html: &str, selector: &str) -> (r: Option<Vec<Vec<String>>>)
    ensures
        match r {
            Some(els) => selected_texts(html@, selector@) == Some(element_views(els@)),
            None => selected_texts(html@, selector@) is None,
        },
{
    let document = scraper::Html::parse_document(html);
    let sel = match scraper::Selector::parse(selector) {
        Ok(s) => s,
        Err(_) => {
            return None;
        },
    };
    Some(
        document.select(&sel).map(
            |element| element.text().map(|t| t.to_string()).collect(),
        ).collect(),
    )
}

/// The trimmed, non-blank text nodes of one element, in order.
pub open spec fn node_parts(nodes: Seq<Seq<char>>) -> Seq<Seq<char>>
    decreases nodes.len(),
{
    if nodes.len() == 0 {
        Seq::empty()
    } else {
        let rest = node_parts(nodes.skip(1));
        let t = trimmed(nodes[0]);
        if spec_blank(t) {
            rest
        } else {
            seq![t] + rest
        }
    }
}

/// One element's text: its trimmed nodes joined with single spaces.
pub open spec fn element_text(nodes: Seq<Seq<char>>) -> Seq<char> {
    join_sep(node_parts(nodes), " "@)
}

/// The texts of the elements whose text is not blank.
pub open spec fn kept_texts(els: Seq<Seq<Seq<char>>>) -> Seq<Seq<char>>
    decreases els.len(),
{
    if els.len() == 0 {
        Seq::empty()
    } else {
        let rest = kept_texts(els.skip(1));
        let t = element_text(els[0]);
        if spec_blank(t) {
            rest
        } else {
            seq![t] + rest
        }
    }
}

/// The non-blank element texts a selector finds on the page.
pub open spec fn selector_hits(html: Seq<char>, selector: Seq<char>) -> Seq<Seq<char>> {
    match selected_texts(html, selector) {
        Option::Some(els) => kept_texts(els),
        Option::None => Seq::empty(),
    }
}

/// One element's text, assembled.
fn element_text_value(nodes: &Vec<String>) -> (r: String)
    ensures
        r@ == element_text(str_views(nodes@)),
{
    let ghost nv = str_views(nodes@);
    let mut parts: Vec<String> = Vec::new();
    let n = nodes.len();
    proof {
        assert(nv.skip(0) =~= nv);
        assert(str_views(parts@) + node_parts(nv) =~= node_parts(nv));
    }
    for i in 0..n
        invariant
            nv == str_views(nodes@),
            n == nodes@.len(),
            nv.len() == n,
            node_parts(nv) == str_views(parts@) + node_parts(nv.skip(i as int)),
    {
        proof {
            assert(nv.skip(i as int)[0] == nv[i as int]);
            assert(nv[i as int] == nodes@[i as int]@);
            assert(nv.skip(i as int).skip(1) =~= nv.skip(i as int + 1));
        }
        let t = trim_str(nodes[i].as_str());
        let ghost old_parts = str_views(parts@);
        if !is_blank(t) {
            parts.push(t.to_owned());
            proof {
                assert(str_views(parts@) =~= old_parts.push(trimmed(nv[i as int])));
                assert(old_parts + (seq![trimmed(nv[i as int])] + node_parts(
                    nv.skip(i as int + 1),
                )) =~= str_views(parts@) + node_parts(nv.skip(i as int + 1)));
            }
        }
    }
    proof {
        assert(nv.skip(n as int) =~= Seq::<Seq<char>>::empty());
        assert(str_views(parts@) + Seq::<Seq<char>>::empty() =~= str_views(parts@));
    }
    join_strings(&parts, " ")
}

/// The non-blank element texts one selector finds.
fn selector_hit_values(html: &str, selector: &str) -> (r: Vec<String>)
    ensures
        str_views(r@) == selector_hits(html@, selector@),
{
    let mut out: Vec<String> = Vec::new();
    let els = match select_texts(html, selector) {
        Some(els) => els,
        None => {
            proof {
                assert(str_views(out@) =~= Seq::<Seq<char>>::empty());
            }
            return out;
        },
    };
    let ghost ev = element_views(els@);
    let n = els.len();
    proof {
        assert(ev.skip(0) =~= ev);
    }
    for i in 0..n
        invariant
            ev == element_views(els@),
            n == els@.len(),
            ev.len() == n,
            kept_texts(ev) == str_views(out@) + kept_texts(ev.skip(i as int)),
    {
        proof {
            assert(ev.skip(i as int)[0] == ev[i as int]);
            assert(ev[i as int] == str_views(els@[i as int]@));
            assert(ev.skip(i as int).skip(1) =~= ev.skip(i as int + 1));
        }
        let text = element_text_value(&els[i]);
        let ghost old_out = str_views(out@);
        if !is_blank(text.as_str()) {
            let ghost tv = text@;
            out.push(text);
            proof {
                assert(str_views(out@) =~= old_out.push(tv));
                assert(old_out + (seq![tv] + kept_texts(ev.skip(i as int + 1))) =~= str_views(
                    out@,
                ) + kept_texts(ev.skip(i as int + 1)));
            }
        }
    }
    proof {
        assert(ev.skip(n as int) =~= Seq::<Seq<Seq<char>>>::empty());
        assert(str_views(out@) + Seq::<Seq<char>>::empty() =~= str_views(out@));
    }
    out
}

/// Every text node of one element, concatenated as it stands.
pub open spec fn concat_nodes(nodes: Seq<Seq<char>>) -> Seq<char>
    decreases nodes.len(),
{
    if nodes.len() == 0 {
        Seq::empty()
    } else {
        nodes[0] + concat_nodes(nodes.skip(1))
    }
}

/// The page's title line, when a title element exists: its label, then the
/// element's concatenated text, trimmed.
pub open spec fn title_line(html: Seq<char>) -> Option<Seq<char>> {
    match selected_texts(html, "title"@) {
        Option::Some(els) => if els.len() > 0 {
            Option::Some("Title: "@ + trimmed(concat_nodes(els[0])))
        } else {
            Option::None
        },
        _ => Option::None,
    }
}

/// The content parts of the page: the hits of the first priority selector
/// that has any, else the whole body's text.
pub open spec fn content_parts(html: Seq<char>) -> Seq<Seq<char>> {
    if selector_hits(html, "article"@).len() > 0 {
        selector_hits(html, "article"@)
    } else if selector_hits(html, "main"@).len() > 0 {
        selector_hits(html, "main"@)
    } else if selector_hits(html, "[role='main']"@).len() > 0 {
        selector_hits(html, "[role='main']"@)
    } else if selector_hits(html, ".content"@).len() > 0 {
        selector_hits(html, ".content"@)
    } else if selector_hits(html, ".post-content"@).len() > 0 {
        selector_hits(html, ".post-content"@)
    } else if selector_hits(html, ".article-content"@).len() > 0 {
        selector_hits(html, ".article-content"@)
    } else if selector_hits(html, ".entry-content"@).len() > 0 {
        selector_hits(html, ".entry-content"@)
    } else if selector_hits(html, "#content"@).len() > 0 {
        selector_hits(html, "#content"@)
    } else {
        match selected_texts(html, "body"@) {
            Option::Some(els) => if els.len() > 0 {
                seq![element_text(els[0])]
            } else {
                Seq::empty()
            },
            _ => Seq::empty(),
        }
    }
}

/// The whole page reduced to text: the title line and a blank line when a
/// title exists, then the content parts, joined with newlines and trimmed.
pub open spec fn extracted_page_text(html: Seq<char>) -> Seq<char> {
    trimmed(
        join_sep(
            (match title_line(html) {
                Option::Some(t) => seq![t, Seq::<char>::empty()],
                Option::None => Seq::empty(),
            }) + content_parts(html),
            "\n"@,
        ),
    )
}

/// Reduce a fetched page to its readable text.
pub fn extract_text(html: &str) -> (r: String)
    ensures
        r@ == extracted_page_text(html@),
{
    let mut parts: Vec<String> = Vec::new();
    match select_texts(html, "title") {
        Some(els) => {
            if els.len() > 0 {
                let ghost ev = element_views(els@);
                let mut whole = String::new();
                let nodes = &els[0];
                let n = nodes.len();
                let ghost nv = str_views(nodes@);
                proof {
                    assert(ev[0] == nv);
                    assert(nv.skip(0) =~= nv);
                }
                for i in 0..n
                    invariant
                        nv == str_views(nodes@),
                        n == nodes@.len(),
                        nv.len() == n,
                        concat_nodes(nv) == whole@ + concat_nodes(nv.skip(i as int)),
                    decreases n - i,
                {
                    proof {
                        assert(nv.skip(i as int)[0] == nv[i as int]);
                        assert(nv[i as int] == nodes@[i as int]@);
                        assert(nv.skip(i as int).skip(1) =~= nv.skip(i as int + 1));
                    }
                    let ghost whole_old = whole@;
                    whole.append(nodes[i].as_str());
                    proof {
                        assert((whole_old + nv[i as int]) + concat_nodes(nv.skip(i as int + 1))
                            =~= whole_old + (nv[i as int] + concat_nodes(nv.skip(i as int + 1))));
                    }
                }
                proof {
                    assert(nv.skip(n as int) =~= Seq::<Seq<char>>::empty());
                    assert(whole@ + Seq::<char>::empty() =~= whole@);
                }
                parts.push(String::from_str("Title: ").concat(trim_str(whole.as_str())));
                parts.push(String::new());
            }
        },
        None => (),
    }
    let ghost title_parts = str_views(parts@);
    proof {
        match title_line(html@) {
            Option::Some(t) => {
                assert(title_parts =~= seq![t, Seq::<char>::empty()]);
            },
            Option::None => {
                assert(title_parts =~= Seq::<Seq<char>>::empty());
            },
        }
    }
    let mut hits = selector_hit_values(html, "article");
    if hits.len() == 0 {
        hits = selector_hit_values(html, "main");
    }
    if hits.len() == 0 {
        hits = selector_hit_values(html, "[role='main']");
    }
    if hits.len() == 0 {
        hits = selector_hit_values(html, ".content");
    }
    if hits.len() == 0 {
        hits = selector_hit_values(html, ".post-content");
    }
    if hits.len() == 0 {
        hits = selector_hit_values(html, ".article-content");
    }
    if hits.len() == 0 {
        hits = selector_hit_values(html, ".entry-content");
    }
    if hits.len() == 0 {
        hits = selector_hit_values(html, "#content");
    }
    if hits.len() > 0 {
        let m = hits.len();
        proof {
            assert(title_parts + str_views(hits@).take(0) =~= title_parts);
        }
        for i in 0..m
            invariant
                m == hits@.len(),
                parts@.len() == title_parts.len() + i,
                str_views(parts@) =~= title_parts + str_views(hits@).take(i as int),
            decreases m - i,
        {
            let ghost old_parts = str_views(parts@);
            parts.push(hits[i].clone());
            proof {
                assert(str_views(parts@) =~= old_parts.push(hits@[i as int]@));
                assert(title_parts + str_views(hits@).take(i as int + 1) =~= (title_parts
                    + str_views(hits@).take(i as int)).push(hits@[i as int]@));
            }
        }
        proof {
            assert(str_views(hits@).take(hits@.len() as int) =~= str_views(hits@));
            assert(str_views(parts@) =~= title_parts + content_parts(html@));
        }
    } else {
        match select_texts(html, "body") {
            Some(els) => {
                if els.len() > 0 {
                    let ghost ev = element_views(els@);
                    let t = element_text_value(&els[0]);
                    let ghost tv = t@;
                    proof {
                        assert(ev[0] == str_views(els@[0]@));
                    }
                    parts.push(t);
                    proof {
                        assert(str_views(parts@) =~= title_parts.push(tv));
                        assert(title_parts + seq![tv] =~= title_parts.push(tv));
                        assert(str_views(parts@) =~= title_parts + content_parts(html@));
                    }
                } else {
                    proof {
                        assert(title_parts + Seq::<Seq<char>>::empty() =~= title_parts);
                        assert(str_views(parts@) =~= title_parts + content_parts(html@));
                    }
                }
            },
            None => {
                proof {
                    assert(title_parts + Seq::<Seq<char>>::empty() =~= title_parts);
                    assert(str_views(parts@) =~= title_parts + content_parts(html@));
                }
            },
        }
    }
    let joined = join_strings(&parts, "\n");
    trim_str(joined.as_str()).to_owned()
}

/// Whether the needle occurs in the text.
pub open spec fn contains_sub(s: Seq<char>, needle: Seq<char>) -> bool {
    exists|k: int|
        0 <= k && k + needle.len() <= s.len() && #[trigger] s.subrange(k, k + needle.len() as int)
            == needle
}

/// Whether the text matches the needle at position `k`.
fn match_at(s: &str, k: usize, needle: &str) -> (r: bool)
    requires
        k + needle@.len() <= s@.len(),
    ensures
        r == (s@.subrange(k as int, k as int + needle@.len() as int) == needle@),
{
    let n = s.unicode_len();
    let m = needle.unicode_len();
    for j in 0..m
        invariant
            n == s@.len(),
            m == needle@.len(),
            k + m <= n,
            forall|x: int| 0 <= x < j ==> s@[k + x] == needle@[x],
    {
        if s.get_char(k + j) != needle.get_char(j) {
            proof {
                assert(s@.subrange(k as int, k as int + m as int)[j as int] == s@[k as int
                    + j as int]);
            }
            return false;
        }
    }
    proof {
        assert(s@.subrange(k as int, k as int + m as int) =~= needle@);
    }
    true
}

/// Whether the text holds the needle anywhere.
pub fn contains_str(s: &str, needle: &str) -> (r: bool)
    ensures
        r == contains_sub(s@, needle@),
{
    let n = s.unicode_len();
    let m = needle.unicode_len();
    if m > n {
        return false;
    }
    let mut k: usize = 0;
    while k <= n - m
        invariant
            n == s@.len(),
            m == needle@.len(),
            m <= n,
            k <= n - m + 1,
            forall|x: int|
                0 <= x < k ==> #[trigger] s@.subrange(x, x + needle@.len() as int) != needle@,
        decreases n - k,
    {
        if match_at(s, k, needle) {
            return true;
        }
        proof {
            if m == 0 {
                assert(s@.subrange(k as int, k as int) =~= needle@);
            }
        }
        k = k + 1;
    }
    false
}

/// Whether a URL points into the Notion workspace rather than the open
/// web.
pub fn is_notion_url(url: &str) -> (r: bool)
    ensures
        r == (contains_sub(url@, "notion.so"@) || contains_sub(url@, "notion.site"@)),
{
    contains_str(url, "notion.so") || contains_str(url, "notion.site")
}

} // verus!
