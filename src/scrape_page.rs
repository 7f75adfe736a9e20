//! The words inside block containers and the resolved link targets of a page.

use vstd::prelude::*;
use crate::address::{Address, addresses, is_absolute_url, joined_url, parsed_url};
use crate::document::{
    compile_selector, element_attribute_values, element_texts, node_texts, option_texts,
    parse_document, selected_attribute_values, selected_texts, selector_parses,
};
use crate::words::{is_word, lemma_words_are_clean, push_words, texts, words};

verus! {

/// The elements whose text is read: the generic block container.
pub const BLOCK_SELECTOR: &'static str = "div";

/// The elements whose targets are read.
pub const ANCHOR_SELECTOR: &'static str = "a";

/// The attribute that holds an anchor's target.
pub const TARGET_ATTRIBUTE: &'static str = "href";

/// What is read from one page.
pub struct Page {
    /// The address the page was given under, unchanged.
    pub url: Address,
    /// The words inside block containers, container by container.
    pub words: Vec<String>,
    /// The resolved link targets, anchor by anchor.
    pub links: Vec<Address>,
}

pub open spec fn starts_with(s: Seq<char>, c: char) -> bool {
    s.len() > 0 && s[0] == c
}

/// The text nodes of one container, run together.
pub open spec fn joined_text(nodes: Seq<Seq<char>>) -> Seq<char>
    decreases nodes.len(),
{
    if nodes.len() == 0 {
        seq![]
    } else {
        joined_text(nodes.drop_last()) + nodes.last()
    }
}

/// The words of each container's text, one container after another.
pub open spec fn container_words(containers: Seq<Seq<Seq<char>>>) -> Seq<Seq<char>>
    decreases containers.len(),
{
    if containers.len() == 0 {
        seq![]
    } else {
        container_words(containers.drop_last()) + words(joined_text(containers.last()))
    }
}

/// The words of the page `body`.
pub open spec fn page_words(body: Seq<char>) -> Seq<Seq<char>> {
    if selector_parses(BLOCK_SELECTOR@) {
        container_words(element_texts(body, BLOCK_SELECTOR@))
    } else {
        seq![]
    }
}

/// Where one link target leads: nowhere for a fragment of this page, the
/// path joined to `base` for a root-relative path, else the target read as
/// an absolute URL.
pub open spec fn resolved_link(base: Seq<char>, target: Seq<char>) -> Option<Seq<char>> {
    if starts_with(target, '#') {
        None
    } else if starts_with(target, '/') {
        joined_url(base, target)
    } else {
        parsed_url(target)
    }
}

/// The targets that are present and resolve, resolved, in order; an anchor
/// without a target is passed over.
pub open spec fn resolved_links(base: Seq<char>, targets: Seq<Option<Seq<char>>>) -> Seq<
    Seq<char>,
>
    decreases targets.len(),
{
    if targets.len() == 0 {
        seq![]
    } else {
        let rest = resolved_links(base, targets.drop_last());
        match targets.last() {
            Some(target) => match resolved_link(base, target) {
                Some(link) => rest.push(link),
                None => rest,
            },
            None => rest,
        }
    }
}

/// The links of the page `body` found under the address `base`.
pub open spec fn page_links(body: Seq<char>, base: Seq<char>) -> Seq<Seq<char>> {
    if selector_parses(ANCHOR_SELECTOR@) {
        resolved_links(base, element_attribute_values(body, ANCHOR_SELECTOR@, TARGET_ATTRIBUTE@))
    } else {
        seq![]
    }
}

/// Resolves one link target against `base`.
pub fn resolve_link(base: &Address, target: &str) -> (r: Option<Address>)
    ensures
        match r {
            Some(a) => resolved_link(base@, target@) == Some(a@) && is_absolute_url(a@),
            None => resolved_link(base@, target@) is None,
        },
{
    if target.is_empty() {
        Address::parse(target)
    } else {
        let first = target.get_char(0);
        if first == '#' {
            None
        } else if first == '/' {
            base.join(target)
        } else {
            Address::parse(target)
        }
    }
}

/// Appends to `out` the words of each container, one container after another.
pub fn push_container_words(containers: &Vec<Vec<String>>, out: &mut Vec<String>)
    ensures
        texts(final(out)@) == texts(old(out)@) + container_words(node_texts(containers@)),
{
    let ghost start = texts(out@);
    let ghost all = node_texts(containers@);
    let mut i: usize = 0;
    while i < containers.len()
        invariant
            i <= containers.len(),
            all == node_texts(containers@),
            texts(out@) == start + container_words(all.take(i as int)),
        decreases containers.len() - i,
    {
        let nodes = &containers[i];
        let ghost node_seq = all[i as int];
        let mut text = String::new();
        let mut j: usize = 0;
        while j < nodes.len()
            invariant
                j <= nodes.len(),
                node_seq == nodes@.map_values(|s: String| s@),
                text@ == joined_text(node_seq.take(j as int)),
            decreases nodes.len() - j,
        {
            text.append(nodes[j].as_str());
            assert(node_seq.take(j + 1).drop_last() == node_seq.take(j as int));
            j = j + 1;
        }
        assert(node_seq.take(j as int) == node_seq);
        push_words(text.as_str(), out);
        assert(all.take(i + 1).drop_last() == all.take(i as int));
        i = i + 1;
    }
    assert(all.take(i as int) == all);
}

/// Appends to `out` each target that is present and resolves against `base`, resolved.
pub fn push_links(base: &Address, targets: &Vec<Option<String>>, out: &mut Vec<Address>)
    ensures
        addresses(final(out)@) == addresses(old(out)@) + resolved_links(
            base@,
            option_texts(targets@),
        ),
        forall|k: int|
            0 <= k < final(out)@.len() ==> old(out)@.len() <= k ==> is_absolute_url(
                #[trigger] final(out)@[k]@,
            ),
        forall|k: int| 0 <= k < old(out)@.len() ==> final(out)@[k] == old(out)@[k],
{
    let ghost start = out@;
    let ghost all = option_texts(targets@);
    let mut i: usize = 0;
    while i < targets.len()
        invariant
            i <= targets.len(),
            all == option_texts(targets@),
            start.len() <= out@.len(),
            addresses(out@) == addresses(start) + resolved_links(base@, all.take(i as int)),
            forall|k: int| 0 <= k < start.len() ==> out@[k] == start[k],
            forall|k: int| start.len() <= k < out@.len() ==> is_absolute_url(#[trigger] out@[k]@),
        decreases targets.len() - i,
    {
        assert(all.take(i + 1).drop_last() == all.take(i as int));
        let ghost prev = out@;
        match &targets[i] {
            Some(target) => match resolve_link(base, target.as_str()) {
                Some(link) => {
                    out.push(link);
                    assert(addresses(out@) =~= addresses(prev).push(out@.last()@));
                },
                None => {},
            },
            None => {},
        }
        i = i + 1;
    }
    assert(all.take(i as int) == all);
}

/// Reads the words inside block containers and the link targets of the page
/// `body`, found under the address `page_url`.
pub fn scrape_page(body: &str, page_url: Address) -> (page: Page)
    ensures
        page.url == page_url,
        texts(page.words@) == page_words(body@),
        addresses(page.links@) == page_links(body@, page_url@),
        forall|i: int| 0 <= i < page.words@.len() ==> is_word(#[trigger] page.words@[i]@),
        forall|i: int|
            0 <= i < page.links@.len() ==> is_absolute_url(#[trigger] page.links@[i]@)
                && !starts_with(page.links@[i]@, '#'),
{
    let document = parse_document(body);
    let mut words: Vec<String> = Vec::new();
    match compile_selector(BLOCK_SELECTOR) {
        Some(query) => {
            let containers = selected_texts(&document, &query);
            push_container_words(&containers, &mut words);
        },
        None => {},
    }
    let mut links: Vec<Address> = Vec::new();
    match compile_selector(ANCHOR_SELECTOR) {
        Some(query) => {
            let targets = selected_attribute_values(&document, &query, TARGET_ATTRIBUTE);
            push_links(&page_url, &targets, &mut links);
        },
        None => {},
    }
    proof {
        lemma_page_words_are_words(body@);
        assert forall|i: int| 0 <= i < words@.len() implies is_word(#[trigger] words@[i]@) by {
            assert(texts(words@)[i] == words@[i]@);
        }
    }
    Page { url: page_url, words, links }
}

proof fn lemma_container_words_are_words(containers: Seq<Seq<Seq<char>>>)
    ensures
        forall|i: int|
            0 <= i < container_words(containers).len() ==> is_word(
                #[trigger] container_words(containers)[i],
            ),
    decreases containers.len(),
{
    if containers.len() > 0 {
        let rest = container_words(containers.drop_last());
        let last = words(joined_text(containers.last()));
        lemma_container_words_are_words(containers.drop_last());
        lemma_words_are_clean(joined_text(containers.last()));
        assert forall|i: int| 0 <= i < (rest + last).len() implies is_word(
            #[trigger] (rest + last)[i],
        ) by {
            if i < rest.len() {
                assert((rest + last)[i] == rest[i]);
            } else {
                assert((rest + last)[i] == last[i - rest.len()]);
            }
        }
    }
}

/// Every word read from a page is non-empty and holds no whitespace.
pub proof fn lemma_page_words_are_words(body: Seq<char>)
    ensures
        forall|i: int| 0 <= i < page_words(body).len() ==> is_word(#[trigger] page_words(body)[i]),
{
    lemma_container_words_are_words(element_texts(body, BLOCK_SELECTOR@));
}

/// Reading a page is a function of the page and its address: two readings of
/// the same page under the same address give the same address, words and links.
pub proof fn lemma_scrape_page_is_pure(body: Seq<char>, base: Address, p: Page, q: Page)
    requires
        p.url == base,
        texts(p.words@) == page_words(body),
        addresses(p.links@) == page_links(body, base@),
        q.url == base,
        texts(q.words@) == page_words(body),
        addresses(q.links@) == page_links(body, base@),
    ensures
        p.url == q.url,
        texts(p.words@) == texts(q.words@),
        addresses(p.links@) == addresses(q.links@),
{
}

} // verus!
