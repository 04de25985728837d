//! Rendering of web-search responses: the instant answer, definition,
//! related topics and direct answer a search service returns, or a helpful
//! fallback when it returns nothing. The HTTP call is the caller's;
//! everything here works on the extracted fields.

use vstd::prelude::*;
use crate::jsonio::{json_as_array, json_as_str, json_elems, json_get, json_member, spec_str_field};
use crate::strutil::{spec_digits, u64_to_string};

verus! {

/// How many related topics are rendered.
pub const RELATED_TOPICS_CAP: usize = 5;

/// The fields read from a search response. A missing field is `None`; a
/// field that is present but empty stays an empty string.
pub struct SearchFields {
    pub heading: Option<String>,
    pub abstract_text: Option<String>,
    pub abstract_url: Option<String>,
    pub definition: Option<String>,
    pub definition_url: Option<String>,
    /// Text and first URL of each related topic, in response order;
    /// missing members are empty strings.
    pub related: Vec<(String, String)>,
    /// Whether the response carried a related-topics array at all.
    pub has_related: bool,
    pub answer: Option<String>,
}

/// A source line when a URL is present and non-empty.
pub open spec fn spec_source_line(url: Option<String>) -> Seq<char> {
    match url {
        Some(u) => if u@.len() > 0 {
            "Source: "@ + u@ + "\n\n"@
        } else {
            Seq::empty()
        },
        None => Seq::empty(),
    }
}

/// The instant-answer section: the heading (or `Result` when none came)
/// and the abstract, with its source.
pub open spec fn spec_abstract_section(f: SearchFields) -> Seq<char> {
    match f.abstract_text {
        Some(a) => if a@.len() > 0 {
            "## "@ + (match f.heading {
                Some(h) => h@,
                None => "Result"@,
            }) + "\n\n"@ + a@ + "\n\n"@ + spec_source_line(f.abstract_url)
        } else {
            Seq::empty()
        },
        None => Seq::empty(),
    }
}

/// The definition section, with its source.
pub open spec fn spec_definition_section(f: SearchFields) -> Seq<char> {
    match f.definition {
        Some(d) => if d@.len() > 0 {
            "**Definition**: "@ + d@ + "\n\n"@ + spec_source_line(f.definition_url)
        } else {
            Seq::empty()
        },
        None => Seq::empty(),
    }
}

/// The numbered lines of the related topics: a topic with both a text and
/// a URL gets a line, any other keeps its number and is skipped.
pub open spec fn spec_related_items(items: Seq<(String, String)>, num: nat) -> Seq<char>
    decreases items.len(),
{
    if items.len() == 0 {
        Seq::empty()
    } else {
        (if items.first().0@.len() > 0 && items.first().1@.len() > 0 {
            spec_digits(num) + ". ["@ + items.first().0@ + "]("@ + items.first().1@ + ")\n"@
        } else {
            Seq::empty()
        }) + spec_related_items(items.drop_first(), num + 1)
    }
}

/// The related-topics section: present whenever the response carried any
/// topics, capped at the first few.
pub open spec fn spec_related_section(f: SearchFields) -> Seq<char> {
    if f.has_related && f.related@.len() > 0 {
        let capped = if f.related@.len() <= RELATED_TOPICS_CAP {
            f.related@
        } else {
            f.related@.take(RELATED_TOPICS_CAP as int)
        };
        "## Related Information:\n\n"@ + spec_related_items(capped, 1) + "\n"@
    } else {
        Seq::empty()
    }
}

/// The direct-answer section.
pub open spec fn spec_answer_section(f: SearchFields) -> Seq<char> {
    match f.answer {
        Some(a) => if a@.len() > 0 {
            "**Answer**: "@ + a@ + "\n\n"@
        } else {
            Seq::empty()
        },
        None => Seq::empty(),
    }
}

/// The helpful message when the response held nothing usable.
pub open spec fn spec_no_results(q: Seq<char>) -> Seq<char> {
    "I searched for '"@ + q
        + "' but didn't find specific results. You might want to try:\n\n1. Rephrasing your query\n2. Using more specific terms\n3. Checking the spelling\n\nExample searches that work well:\n- 'rust programming language'\n- 'machine learning definition'\n- 'how to install nodejs'"@
}

/// The rendered search result: the sections in order, or the fallback
/// message when every section is empty.
pub open spec fn spec_search_output(f: SearchFields, q: Seq<char>) -> Seq<char> {
    let body = spec_abstract_section(f) + spec_definition_section(f) + spec_related_section(f)
        + spec_answer_section(f);
    if body.len() == 0 {
        spec_no_results(q)
    } else {
        body
    }
}

/// Append a source line for a URL.
fn push_source_line(out: &mut String, url: &Option<String>)
    ensures
        final(out)@ == old(out)@ + spec_source_line(*url),
{
    match url {
        Some(u) => {
            if u.as_str().unicode_len() > 0 {
                out.append("Source: ");
                out.append(u.as_str());
                out.append("\n\n");
            }
        },
        None => {},
    }
}

/// Render the numbered lines of the first `cap` related topics.
fn related_items_text(items: &Vec<(String, String)>, cap: usize) -> (r: String)
    requires
        cap <= items@.len(),
    ensures
        r@ == spec_related_items(items@.take(cap as int), 1),
{
    let ghost capped = items@.take(cap as int);
    let mut outp = String::new();
    let mut i: usize = 0;
    proof {
        assert(capped.skip(0) =~= capped);
    }
    while i < cap
        invariant
            i <= cap <= items@.len(),
            capped == items@.take(cap as int),
            spec_related_items(capped, 1) == outp@ + spec_related_items(
                capped.skip(i as int),
                (i + 1) as nat,
            ),
        decreases cap - i,
    {
        let ghost rest = capped.skip(i as int);
        proof {
            assert(rest.first() == items@.index(i as int));
            assert(rest.drop_first() =~= capped.skip(i + 1));
        }
        let t = &items[i];
        if t.0.as_str().unicode_len() > 0 && t.1.as_str().unicode_len() > 0 {
            let digits = u64_to_string((i + 1) as u64);
            outp.append(digits.as_str());
            outp.append(". [");
            outp.append(t.0.as_str());
            outp.append("](");
            outp.append(t.1.as_str());
            outp.append(")\n");
        }
        i = i + 1;
    }
    proof {
        assert(capped.skip(cap as int) =~= Seq::<(String, String)>::empty());
    }
    outp
}

/// Render the search response, or the fallback message for an empty one.
pub fn format_search_results(fields: &SearchFields, query: &str) -> (r: String)
    ensures
        r@ == spec_search_output(*fields, query@),
{
    let mut out = String::new();

    match &fields.abstract_text {
        Some(a) => {
            if a.as_str().unicode_len() > 0 {
                out.append("## ");
                match &fields.heading {
                    Some(h) => out.append(h.as_str()),
                    None => out.append("Result"),
                }
                out.append("\n\n");
                out.append(a.as_str());
                out.append("\n\n");
                push_source_line(&mut out, &fields.abstract_url);
            }
        },
        None => {},
    }
    proof {
        assert(out@ =~= spec_abstract_section(*fields));
    }

    match &fields.definition {
        Some(d) => {
            if d.as_str().unicode_len() > 0 {
                out.append("**Definition**: ");
                out.append(d.as_str());
                out.append("\n\n");
                push_source_line(&mut out, &fields.definition_url);
            }
        },
        None => {},
    }
    proof {
        assert(out@ =~= spec_abstract_section(*fields) + spec_definition_section(*fields));
    }

    if fields.has_related && fields.related.len() > 0 {
        out.append("## Related Information:\n\n");
        let cap = if fields.related.len() <= RELATED_TOPICS_CAP {
            fields.related.len()
        } else {
            RELATED_TOPICS_CAP
        };
        let items_text = related_items_text(&fields.related, cap);
        out.append(items_text.as_str());
        out.append("\n");
        proof {
            if fields.related@.len() <= RELATED_TOPICS_CAP {
                assert(fields.related@.take(cap as int) =~= fields.related@);
            }
        }
    }
    proof {
        assert(out@ =~= spec_abstract_section(*fields) + spec_definition_section(*fields)
            + spec_related_section(*fields));
    }

    let mut tail = String::new();
    match &fields.answer {
        Some(a) => {
            if a.as_str().unicode_len() > 0 {
                tail.append("**Answer**: ");
                tail.append(a.as_str());
                tail.append("\n\n");
            }
        },
        None => {},
    }
    out.append(tail.as_str());

    if out.unicode_len() == 0 {
        let mut msg = String::from_str("I searched for '");
        msg.append(query);
        msg.append(
            "' but didn't find specific results. You might want to try:\n\n1. Rephrasing your query\n2. Using more specific terms\n3. Checking the spelling\n\nExample searches that work well:\n- 'rust programming language'\n- 'machine learning definition'\n- 'how to install nodejs'",
        );
        msg
    } else {
        out
    }
}

/// The related-topic entries of a response, empty when it carries none.
pub open spec fn spec_topics(resp: serde_json::Value) -> Seq<serde_json::Value> {
    match json_member(resp, "RelatedTopics"@) {
        Some(a) => match json_elems(a) {
            Some(es) => es,
            None => Seq::empty(),
        },
        None => Seq::empty(),
    }
}

/// A topic's string member, empty when absent or not a string.
pub open spec fn spec_topic_field(e: serde_json::Value, key: Seq<char>) -> Seq<char> {
    match spec_str_field(e, key) {
        Some(s) => s,
        None => Seq::empty(),
    }
}

/// One extracted field matches the response's string member of that name.
pub open spec fn spec_field_matches(
    resp: serde_json::Value,
    key: Seq<char>,
    field: Option<String>,
) -> bool {
    match field {
        Some(s) => spec_str_field(resp, key) == Some(s@),
        None => spec_str_field(resp, key) is None,
    }
}

/// Read the search fields out of a parsed response: each field is the
/// response's string member of the same name, and the related topics keep
/// their order with missing members as empty strings.
pub fn search_fields_from(resp: &serde_json::Value) -> (r: SearchFields)
    ensures
        spec_field_matches(*resp, "Heading"@, r.heading),
        spec_field_matches(*resp, "Abstract"@, r.abstract_text),
        spec_field_matches(*resp, "AbstractURL"@, r.abstract_url),
        spec_field_matches(*resp, "Definition"@, r.definition),
        spec_field_matches(*resp, "DefinitionURL"@, r.definition_url),
        spec_field_matches(*resp, "Answer"@, r.answer),
        r.has_related == (spec_topics(*resp).len() > 0),
        r.related@.len() == spec_topics(*resp).len(),
        forall|i: int|
            0 <= i < r.related@.len() ==> (#[trigger] r.related@.index(i)).0@ == spec_topic_field(
                spec_topics(*resp).index(i),
                "Text"@,
            ) && r.related@.index(i).1@ == spec_topic_field(spec_topics(*resp).index(i), "FirstURL"@),
{
    let heading = match json_get(resp, "Heading") {
        Some(v) => json_as_str(v),
        None => None,
    };
    let abstract_text = match json_get(resp, "Abstract") {
        Some(v) => json_as_str(v),
        None => None,
    };
    let abstract_url = match json_get(resp, "AbstractURL") {
        Some(v) => json_as_str(v),
        None => None,
    };
    let definition = match json_get(resp, "Definition") {
        Some(v) => json_as_str(v),
        None => None,
    };
    let definition_url = match json_get(resp, "DefinitionURL") {
        Some(v) => json_as_str(v),
        None => None,
    };
    let mut related: Vec<(String, String)> = Vec::new();
    let mut has_related: bool = false;
    match json_get(resp, "RelatedTopics") {
        Some(arr_v) => {
            match json_as_array(arr_v) {
                Some(arr) => {
                    has_related = arr.len() > 0;
                    let mut i: usize = 0;
                    while i < arr.len()
                        invariant
                            i <= arr@.len(),
                            arr@ == spec_topics(*resp),
                            related@.len() == i,
                            forall|j: int|
                                0 <= j < i ==> (#[trigger] related@.index(j)).0@
                                    == spec_topic_field(arr@.index(j), "Text"@)
                                    && related@.index(j).1@ == spec_topic_field(
                                    arr@.index(j),
                                    "FirstURL"@,
                                ),
                        decreases arr@.len() - i,
                    {
                        let text = match json_get(&arr[i], "Text") {
                            Some(v) => match json_as_str(v) {
                                Some(s) => s,
                                None => String::new(),
                            },
                            None => String::new(),
                        };
                        let url = match json_get(&arr[i], "FirstURL") {
                            Some(v) => match json_as_str(v) {
                                Some(s) => s,
                                None => String::new(),
                            },
                            None => String::new(),
                        };
                        related.push((text, url));
                        i = i + 1;
                    }
                },
                None => {},
            }
        },
        None => {},
    }
    let answer = match json_get(resp, "Answer") {
        Some(v) => json_as_str(v),
        None => None,
    };
    SearchFields {
        heading,
        abstract_text,
        abstract_url,
        definition,
        definition_url,
        related,
        has_related,
        answer,
    }
}

} // verus!
