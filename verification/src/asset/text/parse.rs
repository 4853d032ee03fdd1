use vstd::prelude::*;
use vstd::string::{StrSliceExecFns, StringExecFns};
use super::content::{node_views, TextNode, TextNodeView};
use crate::strutil::{all_digits, char_is_digit, digits_end, digits_val, find2_from, find_char_from,
    find_char, parse_u32_range, spec_trim, str_eq_chars, str_views, trim_bounds};

verus! {

/// A string indicating the start of a sequence of text nodes.
pub const TEXT_START: &'static str = "[start]";

/// A string indicating the end of a sequence of text nodes.
pub const TEXT_END: &'static str = "[end]";

/// The stage number of a fragment: after an opening bracket, the maximal
/// decimal digit run must be non-empty, closed by a bracket, and denote a
/// value that fits a `u32`.
pub open spec fn spec_stage(s: Seq<char>) -> Option<u32> {
    if s.len() >= 1 && s[0] == '[' {
        let k = digits_end(s, 1);
        if k > 1 && k < s.len() && s[k] == ']' && digits_val(s, 1, k) <= u32::MAX {
            Some(digits_val(s, 1, k) as u32)
        } else {
            None
        }
    } else {
        None
    }
}

/// The topic of a fragment: after an opening bracket, at least one character
/// must stand before the first closing bracket; they are the topic.
pub open spec fn spec_topic(s: Seq<char>) -> Option<Seq<char>> {
    if s.len() >= 1 && s[0] == '[' {
        let j = find_char_from(s, 1, ']');
        if j > 1 {
            Some(s.subrange(1, j))
        } else {
            None
        }
    } else {
        None
    }
}

/// The classification of one text fragment, in fixed priority order: the
/// trimmed start marker, the trimmed end marker, a bracketed stage number, a
/// bracketed topic, and otherwise free-form content. A bracketed digit run
/// that is empty or denotes a value beyond `u32` is no stage; it falls
/// through to the later classes.
pub open spec fn spec_classify(s: Seq<char>) -> TextNodeView {
    if spec_trim(s) == "[start]"@ {
        TextNodeView::Start
    } else if spec_trim(s) == "[end]"@ {
        TextNodeView::End
    } else {
        match spec_stage(s) {
            Some(n) => TextNodeView::Stage(n),
            None => match spec_topic(s) {
                Some(t) => TextNodeView::Topic(t),
                None => TextNodeView::Content(s),
            },
        }
    }
}

/// Recognises a bracketed stage number at the head of `text`.
fn try_stage(text: &str) -> (r: Option<u32>)
    ensures
        r == spec_stage(text@),
{
    let len = text.unicode_len();
    if len == 0 || text.get_char(0) != '[' {
        return None;
    }
    let mut k: usize = 1;
    while k < len && char_is_digit(text.get_char(k))
        invariant
            1 <= k <= len,
            len == text@.len(),
            digits_end(text@, 1) == digits_end(text@, k as int),
            all_digits(text@, 1, k as int),
        decreases len - k,
    {
        k = k + 1;
    }
    if k > 1 && k < len && text.get_char(k) == ']' {
        parse_u32_range(text, 1, k)
    } else {
        None
    }
}

/// Recognises a bracketed topic at the head of `text`.
fn try_topic(text: &str) -> (r: Option<String>)
    ensures
        r is Some <==> spec_topic(text@) is Some,
        r matches Some(t) ==> spec_topic(text@) == Some(t@),
{
    let len = text.unicode_len();
    if len == 0 || text.get_char(0) != '[' {
        return None;
    }
    match find_char(text, 1, ']') {
        None => None,
        Some(j) => {
            if j > 1 {
                Some(text.substring_char(1, j).to_owned())
            } else {
                None
            }
        },
    }
}

/// Splits a fragment `[inner]rest` into `(rest, inner)`: the inner text must
/// be non-empty and free of closing brackets.
pub fn delimited_text<'a>(input: &'a str) -> (r: Option<(&'a str, &'a str)>)
    ensures
        spec_topic(input@) matches Some(t) ==> (r matches Some(p) && p.1@ == t && p.0@
            == input@.subrange(find_char_from(input@, 1, ']') + 1, input@.len() as int)),
        spec_topic(input@) is None ==> r is None,
{
    let len = input.unicode_len();
    if len == 0 || input.get_char(0) != '[' {
        return None;
    }
    match find_char(input, 1, ']') {
        None => None,
        Some(j) => {
            if j > 1 {
                Some((input.substring_char(j + 1, len), input.substring_char(1, j)))
            } else {
                None
            }
        },
    }
}

/// Splits a fragment `[digits]rest` into `(rest, digits)`: the digit run may
/// be empty, and the bracket after it must close.
pub fn delimited_digit<'a>(input: &'a str) -> (r: Option<(&'a str, &'a str)>)
    ensures
        ({
            let k = digits_end(input@, 1);
            if input@.len() >= 1 && input@[0] == '[' && k < input@.len() && input@[k] == ']' {
                r matches Some(p) && p.1@ == input@.subrange(1, k) && p.0@ == input@.subrange(
                    k + 1,
                    input@.len() as int,
                )
            } else {
                r is None
            }
        }),
{
    let len = input.unicode_len();
    if len == 0 || input.get_char(0) != '[' {
        return None;
    }
    let mut k: usize = 1;
    while k < len && char_is_digit(input.get_char(k))
        invariant
            1 <= k <= len,
            len == input@.len(),
            digits_end(input@, 1) == digits_end(input@, k as int),
        decreases len - k,
    {
        k = k + 1;
    }
    if k < len && input.get_char(k) == ']' {
        Some((input.substring_char(k + 1, len), input.substring_char(1, k)))
    } else {
        None
    }
}

/// The fragments of `s` from `from` on, split at each two-character line
/// separator, in order; separators are consumed and empty fragments kept.
pub open spec fn spec_split_crlf(s: Seq<char>, from: int) -> Seq<Seq<char>>
    decreases s.len() - from,
    when 0 <= from <= s.len()
{
    let i = find2_from(s, from, '\r', '\n');
    if i < 0 || i < from || i + 2 > s.len() {
        seq![s.subrange(from, s.len() as int)]
    } else {
        seq![s.subrange(from, i)] + spec_split_crlf(s, i + 2)
    }
}

/// Splits `s` at each two-character line separator.
#[verifier::loop_isolation(false)]
pub fn split_crlf(s: &str) -> (r: Vec<String>)
    ensures
        str_views(r@) == spec_split_crlf(s@, 0),
{
    let len = s.unicode_len();
    let mut out: Vec<String> = Vec::new();
    proof {
        assert(str_views(out@) =~= Seq::<Seq<char>>::empty());
    }
    let mut start: usize = 0;
    let mut i: usize = 0;
    while i < len && i + 1 < len
        invariant
            0 <= start <= i <= len,
            find2_from(s@, start as int, '\r', '\n') == find2_from(s@, i as int, '\r', '\n'),
            spec_split_crlf(s@, 0) == str_views(out@) + spec_split_crlf(s@, start as int),
        decreases len - i,
    {
        if s.get_char(i) == '\r' && s.get_char(i + 1) == '\n' {
            let piece = s.substring_char(start, i).to_owned();
            proof {
                assert(str_views(out@.push(piece)) =~= str_views(out@).push(piece@));
                assert(str_views(out@) + spec_split_crlf(s@, start as int) =~= str_views(
                    out@.push(piece),
                ) + spec_split_crlf(s@, (i + 2) as int));
            }
            out.push(piece);
            start = i + 2;
            i = i + 2;
        } else {
            i = i + 1;
        }
    }
    let piece = s.substring_char(start, len).to_owned();
    proof {
        assert(str_views(out@.push(piece)) =~= str_views(out@).push(piece@));
        assert(str_views(out@) + spec_split_crlf(s@, start as int) =~= str_views(
            out@.push(piece),
        ));
    }
    out.push(piece);
    out
}

/// The classified nodes of a run of fragments: empty fragments are dropped,
/// the rest classified in order.
pub open spec fn spec_nodes_of_parts(parts: Seq<Seq<char>>) -> Seq<TextNodeView> {
    parts.filter(|p: Seq<char>| p.len() > 0).map_values(|p: Seq<char>| spec_classify(p))
}

/// The classified nodes of a whole decoded text: split at line separators,
/// empty fragments dropped, the rest classified.
pub open spec fn spec_text_nodes(content: Seq<char>) -> Seq<TextNodeView> {
    spec_nodes_of_parts(spec_split_crlf(content, 0))
}

/// Appending one fragment extends the classified run by its class exactly
/// when the fragment is non-empty.
pub proof fn lemma_nodes_push(parts: Seq<Seq<char>>, x: Seq<char>)
    ensures
        x.len() > 0 ==> spec_nodes_of_parts(parts.push(x)) == spec_nodes_of_parts(parts).push(
            spec_classify(x),
        ),
        x.len() == 0 ==> spec_nodes_of_parts(parts.push(x)) == spec_nodes_of_parts(parts),
{
    reveal(Seq::filter);
    let pred = |p: Seq<char>| p.len() > 0;
    assert(parts.push(x).drop_last() =~= parts);
    assert(parts.push(x).last() == x);
    if x.len() > 0 {
        assert(parts.push(x).filter(pred) == parts.filter(pred).push(x));
        assert(parts.filter(pred).push(x).map_values(|p: Seq<char>| spec_classify(p)) =~= parts
            .filter(pred)
            .map_values(|p: Seq<char>| spec_classify(p))
            .push(spec_classify(x)));
    }
}

/// Classifies a run of decoded fragments, dropping the empty ones.
#[verifier::loop_isolation(false)]
pub fn classify_fragments(parts: &Vec<String>) -> (r: Vec<TextNode>)
    ensures
        node_views(r@) == spec_nodes_of_parts(str_views(parts@)),
{
    let mut out: Vec<TextNode> = Vec::new();
    proof {
        reveal(Seq::filter);
        assert(node_views(out@) =~= Seq::<TextNodeView>::empty());
        assert(str_views(parts@).take(0) =~= Seq::<Seq<char>>::empty());
        assert(spec_nodes_of_parts(str_views(parts@).take(0)) =~= node_views(out@));
    }
    let mut i: usize = 0;
    while i < parts.len()
        invariant
            0 <= i <= parts@.len(),
            node_views(out@) == spec_nodes_of_parts(str_views(parts@).take(i as int)),
        decreases parts@.len() - i,
    {
        proof {
            lemma_nodes_push(str_views(parts@).take(i as int), str_views(parts@)[i as int]);
            assert(str_views(parts@).take((i + 1) as int) =~= str_views(parts@).take(
                i as int,
            ).push(str_views(parts@)[i as int]));
        }
        let part = &parts[i];
        if !part.as_str().is_empty() {
            let node = parse_text(part.as_str());
            proof {
                assert(node_views(out@.push(node)) =~= node_views(out@).push(node@));
            }
            out.push(node);
        }
        i = i + 1;
    }
    proof {
        assert(str_views(parts@).take(parts@.len() as int) =~= str_views(parts@));
    }
    out
}

/// Classifies a text fragment into its `TextNode`.
pub fn parse_text(text: &str) -> (r: TextNode)
    ensures
        r@ == spec_classify(text@),
{
    let (a, b) = trim_bounds(text);
    let trimmed = text.substring_char(a, b);
    if str_eq_chars(trimmed, "[start]") {
        return TextNode::Start;
    }
    if str_eq_chars(trimmed, "[end]") {
        return TextNode::End;
    }
    match try_stage(text) {
        Some(n) => TextNode::Stage(n),
        None => match try_topic(text) {
            Some(t) => TextNode::Topic(t),
            None => TextNode::Content(text.to_owned()),
        },
    }
}

} // verus!

