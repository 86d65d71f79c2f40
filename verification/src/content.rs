//! From a fetched document to the text that is watched, and from that text
//! to its fingerprint.

use crate::selector::Selector;
use vstd::prelude::*;
use vstd::string::{StringExecFns, StringSliceAdditionalSpecFns};

verus! {

/// The text nodes under every element of `document` that `selector`
/// matches, in the order in which the selection yields them.
pub uninterp spec fn selected_text(document: Seq<char>, selector: Seq<char>) -> Seq<Seq<char>>;

/// The texts of `nodes`.
pub open spec fn texts(nodes: Seq<String>) -> Seq<Seq<char>> {
    Seq::new(nodes.len(), |i: int| nodes[i]@)
}

/// Parses `document` with `scraper::Html::parse_document`, and walks
/// `scraper::Html::select` with `scraper::ElementRef::text` for the selector
/// that `scraper::Selector::parse` makes of `selector`. The text nodes that
/// come out depend on the two arguments alone, so the contract gives them
/// their name. The selector must parse.
#[verifier::external_body]
fn select_text(document: &str, selector: &str) -> (r: Vec<String>)
    requires
        crate::selector::selector_parses(selector@),
    ensures
        texts(r@) == selected_text(document@, selector@),
{
    let html = scraper::Html::parse_document(document);
    let selector = scraper::Selector::parse(selector).unwrap();
    let mut nodes = Vec::new();
    for element in html.select(&selector) {
        for text in element.text() {
            nodes.push(text.to_owned());
        }
    }
    nodes
}

/// The trimmed texts of `nodes`, without those that are empty after
/// trimming.
pub open spec fn kept(nodes: Seq<Seq<char>>) -> Seq<Seq<char>>
    decreases nodes.len(),
{
    if nodes.len() == 0 {
        Seq::empty()
    } else {
        let text = crate::text::trimmed(nodes.last());
        if text.len() > 0 {
            kept(nodes.drop_last()).push(text)
        } else {
            kept(nodes.drop_last())
        }
    }
}

/// `parts` in one text, a line feed between each two.
pub open spec fn joined(parts: Seq<Seq<char>>) -> Seq<char>
    decreases parts.len(),
{
    if parts.len() == 0 {
        Seq::empty()
    } else if parts.len() == 1 {
        parts[0]
    } else {
        joined(parts.drop_last()) + seq!['\n'] + parts.last()
    }
}

/// The trimmed, non-empty texts of `nodes`, joined by line feeds.
pub fn join_text(nodes: &Vec<String>) -> (r: String)
    ensures
        r@ == joined(kept(texts(nodes@))),
{
    let ghost all = texts(nodes@);
    let mut out = String::new();
    let mut first = true;
    let mut i: usize = 0;
    while i < nodes.len()
        invariant
            i <= nodes@.len(),
            all == texts(nodes@),
            out@ == joined(kept(all.take(i as int))),
            first == (kept(all.take(i as int)).len() == 0),
        decreases nodes@.len() - i,
    {
        let text = nodes[i].as_str().trim();
        proof {
            assert(all.take(i + 1).drop_last() =~= all.take(i as int));
            assert(all.take(i + 1).last() == nodes@[i as int]@);
            reveal_strlit("\n");
        }
        if !text.is_empty() {
            let ghost sooner = kept(all.take(i as int));
            proof {
                assert(kept(all.take(i + 1)) == sooner.push(text@));
                assert(sooner.push(text@).drop_last() =~= sooner);
                assert("\n"@ =~= seq!['\n']);
            }
            if !first {
                out.append("\n");
            }
            out.append(text);
            first = false;
            assert(out@ =~= joined(sooner.push(text@)));
        }
        i += 1;
    }
    proof {
        assert(all.take(i as int) =~= all);
    }
    out
}

/// The watched text of `document`: the trimmed, non-empty text nodes under
/// every element that `selector` matches, joined by line feeds.
pub fn extract(document: &str, selector: &Selector) -> (r: String)
    ensures
        r@ == joined(kept(selected_text(document@, selector@))),
{
    let nodes = select_text(document, selector.as_str());
    join_text(&nodes)
}

/// The fingerprint of fetched text: the SHA-256 digest of the UTF-8 bytes of
/// the trimmed text, and none where nothing is left after trimming.
pub open spec fn fingerprint_of(content: Seq<char>) -> Option<Seq<u8>> {
    let text = crate::text::trimmed(content);
    if text.len() == 0 {
        None
    } else {
        Some(crate::hash::sha256(vstd::utf8::encode_utf8(text)))
    }
}

/// The fingerprint of fetched text, if any text is left after trimming.
/// Of empty text nothing is left.
pub fn fingerprint(content: &str) -> (r: Option<crate::hash::Hash>)
    ensures
        r.is_some() == fingerprint_of(content@).is_some(),
        r.is_some() ==> r.unwrap()@ == fingerprint_of(content@).unwrap(),
        content@.len() == 0 ==> r.is_none(),
{
    let text = content.trim();
    if text.is_empty() {
        None
    } else {
        Some(crate::hash::Hash::new(text.as_bytes()))
    }
}

} // verus!
