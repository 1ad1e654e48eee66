//! A minimal XML document model with a verified parser and printer.
//!
//! eSCL documents are element-only: an element holds either character data or
//! child elements, never both. Devices put attributes (namespace
//! declarations) on elements, but the protocol client reads nothing from
//! them, so the parser skips attributes and the printer never emits any.
//! Character data is kept literally: entity references are not expanded.

use vstd::prelude::*;
use vstd::string::*;

verus! {

/// Mathematical model of an XML element.
pub ghost struct SpecElem {
    pub name: Seq<char>,
    pub text: Seq<char>,
    pub children: Seq<SpecElem>,
}

/// An XML element: a (possibly namespace-prefixed) name, character data, and
/// child elements. When `children` is non-empty, `text` is empty.
#[derive(Debug)]
pub struct Element {
    pub name: String,
    pub text: String,
    pub children: Vec<Element>,
}

pub open spec fn elems_view(s: Seq<Element>) -> Seq<SpecElem>
    decreases s, 0int,
{
    if s.len() == 0 {
        Seq::empty()
    } else {
        elems_view(s.drop_last()).push(elem_view(s.last()))
    }
}

pub open spec fn elem_view(e: Element) -> SpecElem
    decreases e, 1int,
{
    SpecElem { name: e.name@, text: e.text@, children: elems_view(e.children@) }
}

impl View for Element {
    type V = SpecElem;

    open spec fn view(&self) -> SpecElem {
        elem_view(*self)
    }
}

pub proof fn lemma_elems_view_index(s: Seq<Element>)
    ensures
        elems_view(s).len() == s.len(),
        forall|i: int| 0 <= i < s.len() ==> elems_view(s)[i] == #[trigger] s[i]@,
    decreases s.len(),
{
    if s.len() > 0 {
        lemma_elems_view_index(s.drop_last());
        assert forall|i: int| 0 <= i < s.len() implies elems_view(s)[i] == #[trigger] s[i]@ by {
            if i < s.len() - 1 {
                assert(s.drop_last()[i] == s[i]);
            } else {
                assert(s.last() == s[i]);
            }
        }
    }
}

/// Characters allowed in the element names this library reads and writes.
pub open spec fn wf_name_char(c: char) -> bool {
    ('a' <= c && c <= 'z') || ('A' <= c && c <= 'Z') || ('0' <= c && c <= '9') || c == ':' || c
        == '_' || c == '-' || c == '.'
}

pub open spec fn wf_name(n: Seq<char>) -> bool {
    &&& n.len() > 0
    &&& forall|i: int| 0 <= i < n.len() ==> wf_name_char(#[trigger] n[i])
}

/// Character data that can be emitted literally: no markup and no entity
/// reference introducer.
pub open spec fn wf_text(t: Seq<char>) -> bool {
    forall|i: int| 0 <= i < t.len() ==> #[trigger] t[i] != '<' && t[i] != '&'
}

/// Expands the five predefined entity references in character data; an
/// unrecognized or bare `&` is kept literally rather than failing.
pub open spec fn unescape(s: Seq<char>) -> Seq<char>
    decreases s.len(),
{
    if s.len() == 0 {
        Seq::empty()
    } else if s[0] == '&' {
        if s.len() >= 5 && s[1] == 'a' && s[2] == 'm' && s[3] == 'p' && s[4] == ';' {
            seq!['&'] + unescape(s.skip(5))
        } else if s.len() >= 4 && s[1] == 'l' && s[2] == 't' && s[3] == ';' {
            seq!['<'] + unescape(s.skip(4))
        } else if s.len() >= 4 && s[1] == 'g' && s[2] == 't' && s[3] == ';' {
            seq!['>'] + unescape(s.skip(4))
        } else if s.len() >= 6 && s[1] == 'q' && s[2] == 'u' && s[3] == 'o' && s[4] == 't' && s[5]
            == ';' {
            seq!['"'] + unescape(s.skip(6))
        } else if s.len() >= 6 && s[1] == 'a' && s[2] == 'p' && s[3] == 'o' && s[4] == 's' && s[5]
            == ';' {
            seq!['\''] + unescape(s.skip(6))
        } else {
            seq!['&'] + unescape(s.skip(1))
        }
    } else {
        seq![s[0]] + unescape(s.skip(1))
    }
}

/// Character data without an entity introducer reads back unchanged.
pub proof fn lemma_unescape_plain(s: Seq<char>)
    requires
        forall|i: int| 0 <= i < s.len() ==> #[trigger] s[i] != '&',
    ensures
        unescape(s) == s,
    decreases s.len(),
{
    if s.len() == 0 {
        assert(unescape(s) =~= s);
    } else {
        assert(s.skip(1).len() == s.len() - 1);
        assert forall|i: int| 0 <= i < s.skip(1).len() implies #[trigger] s.skip(1)[i] != '&' by {
            assert(s.skip(1)[i] == s[i + 1]);
        }
        lemma_unescape_plain(s.skip(1));
        assert(unescape(s) =~= s);
    }
}

/// Expansion works chunkwise: an entity-free prefix passes through and the
/// rest is expanded on its own.
pub proof fn lemma_unescape_concat_plain(a: Seq<char>, b: Seq<char>)
    requires
        forall|i: int| 0 <= i < a.len() ==> #[trigger] a[i] != '&',
    ensures
        unescape(a + b) == a + unescape(b),
    decreases a.len(),
{
    if a.len() == 0 {
        assert(a + b =~= b);
        assert(a + unescape(b) =~= unescape(b));
    } else {
        assert((a + b)[0] == a[0]);
        assert((a + b).skip(1) =~= a.skip(1) + b);
        assert forall|i: int| 0 <= i < a.skip(1).len() implies #[trigger] a.skip(1)[i] != '&' by {
            assert(a.skip(1)[i] == a[i + 1]);
        }
        lemma_unescape_concat_plain(a.skip(1), b);
        assert(unescape(a + b) =~= a + unescape(b));
    }
}

/// An element the printer can emit such that the parser reads it back.
pub open spec fn wf_elem(e: SpecElem) -> bool
    decreases e,
{
    &&& wf_name(e.name)
    &&& wf_text(e.text)
    &&& e.children.len() > 0 ==> e.text.len() == 0
    &&& forall|i: int| 0 <= i < e.children.len() ==> wf_elem(#[trigger] e.children[i])
}

/// The exact character sequence the printer produces for one element.
pub open spec fn print_elem(e: SpecElem) -> Seq<char>
    decreases e, 1int,
{
    seq!['<'] + e.name + seq!['>'] + (if e.children.len() > 0 {
        print_children(e.children)
    } else {
        e.text
    }) + seq!['<', '/'] + e.name + seq!['>']
}

pub open spec fn print_children(s: Seq<SpecElem>) -> Seq<char>
    decreases s, 0int,
{
    if s.len() == 0 {
        Seq::empty()
    } else {
        print_elem(s.first()) + print_children(s.drop_first())
    }
}

pub open spec fn is_ws(c: char) -> bool {
    c == ' ' || c == '\t' || c == '\r' || c == '\n'
}

/// Index of the first character at or after `i` that is not whitespace.
pub open spec fn skip_ws(s: Seq<char>, i: int) -> int
    decreases s.len() - i,
{
    if 0 <= i < s.len() && is_ws(s[i]) {
        skip_ws(s, i + 1)
    } else {
        i
    }
}

/// Index just past the run of name characters starting at `i`.
pub open spec fn scan_name_end(s: Seq<char>, i: int) -> int
    decreases s.len() - i,
{
    if 0 <= i < s.len() && wf_name_char(s[i]) {
        scan_name_end(s, i + 1)
    } else {
        i
    }
}

/// First index at or after `i` holding character `c`.
pub open spec fn find_char(s: Seq<char>, i: int, c: char) -> Option<int>
    decreases s.len() - i,
{
    if !(0 <= i < s.len()) {
        None
    } else if s[i] == c {
        Some(i)
    } else {
        find_char(s, i + 1, c)
    }
}

/// Index of the `>` that closes a tag whose attribute region starts at `i`,
/// skipping quoted attribute values.
pub open spec fn scan_tag_end(s: Seq<char>, i: int) -> Option<int>
    decreases s.len() - i,
{
    if !(0 <= i < s.len()) {
        None
    } else if s[i] == '>' {
        Some(i)
    } else if s[i] == '"' || s[i] == '\'' {
        match find_char(s, i + 1, s[i]) {
            Some(j) => if i <= j < s.len() {
                scan_tag_end(s, j + 1)
            } else {
                None
            },
            None => None,
        }
    } else {
        scan_tag_end(s, i + 1)
    }
}

/// Parses one element starting exactly at the `<` at index `i`. Returns the
/// element and the index just past its closing tag.
pub open spec fn spec_parse_elem(s: Seq<char>, i: int) -> Option<(SpecElem, int)>
    decreases s.len() - i, 0int,
{
    if !(0 <= i && i + 1 < s.len() && s[i] == '<') {
        None
    } else {
        let ne = scan_name_end(s, i + 1);
        if !(i + 1 < ne && ne <= s.len()) {
            None
        } else {
            let name = s.subrange(i + 1, ne);
            match scan_tag_end(s, ne) {
                None => None,
                Some(gt) => if gt < ne || gt >= s.len() {
                    None
                } else if gt > ne && s[gt - 1] == '/' {
                    Some((SpecElem { name, text: Seq::empty(), children: Seq::empty() }, gt + 1))
                } else {
                    match spec_parse_content(s, gt + 1, name) {
                        None => None,
                        Some((children, text, end)) => Some(
                            (SpecElem { name, text, children }, end),
                        ),
                    }
                },
            }
        }
    }
}

/// Parses element content (text or children) starting at `i`, up to and past
/// the closing tag `</close>`. Yields the children in document order, the
/// character data (empty when children are present), and the index just past
/// the closing tag.
pub open spec fn spec_parse_content(s: Seq<char>, i: int, close: Seq<char>) -> Option<
    (Seq<SpecElem>, Seq<char>, int),
>
    decreases s.len() - i, 1int,
{
    if !(0 <= i <= s.len()) {
        None
    } else {
        match find_char(s, i, '<') {
            None => None,
            Some(j) => if j < i || j + 1 >= s.len() {
                None
            } else if s[j + 1] == '/' {
                // closing tag: it must match `close` exactly
                let ce = j + 2 + close.len();
                if ce < s.len() && s.subrange(j + 2, ce) == close && s[ce] == '>' {
                    Some((Seq::empty(), unescape(s.subrange(i, j)), ce + 1))
                } else {
                    None
                }
            } else {
                match spec_parse_elem(s, j) {
                    None => None,
                    Some((child, k)) => if j < k <= s.len() {
                        match spec_parse_content(s, k, close) {
                            None => None,
                            Some((rest, _t, end)) => Some((seq![child] + rest, Seq::empty(), end)),
                        }
                    } else {
                        None
                    },
                }
            },
        }
    }
}

/// First index at or after `i` just past a `?>` sequence.
pub open spec fn find_pi_end(s: Seq<char>, i: int) -> Option<int>
    decreases s.len() - i,
{
    if !(0 <= i && i + 1 < s.len()) {
        None
    } else if s[i] == '?' && s[i + 1] == '>' {
        Some(i + 2)
    } else {
        find_pi_end(s, i + 1)
    }
}

/// Parses a whole document: optional leading whitespace and XML declaration,
/// then the root element. Trailing characters are ignored.
pub open spec fn spec_parse_document(s: Seq<char>) -> Option<SpecElem> {
    let i0 = skip_ws(s, 0);
    let start = if i0 + 1 < s.len() && s[i0] == '<' && s[i0 + 1] == '?' {
        match find_pi_end(s, i0 + 2) {
            None => None,
            Some(j) => Some(skip_ws(s, j)),
        }
    } else {
        Some(i0)
    };
    match start {
        None => None,
        Some(i) => match spec_parse_elem(s, i) {
            None => None,
            Some((e, _end)) => Some(e),
        },
    }
}

/// The name part after a namespace prefix, or the whole name when it has
/// none. Devices disagree on prefixes, so decoding matches local names.
pub open spec fn local_name(n: Seq<char>) -> Seq<char> {
    match find_char(n, 0, ':') {
        Some(j) => n.subrange(j + 1, n.len() as int),
        None => n,
    }
}

/// The first element of `cs` whose local name is `local`.
pub open spec fn find_named(cs: Seq<SpecElem>, local: Seq<char>) -> Option<SpecElem>
    decreases cs.len(),
{
    if cs.len() == 0 {
        None
    } else if local_name(cs.first().name) == local {
        Some(cs.first())
    } else {
        find_named(cs.drop_first(), local)
    }
}

/// What [`find_char`] says about the region it scanned.
pub proof fn lemma_find_char_before(s: Seq<char>, i: int, c: char)
    requires
        0 <= i,
    ensures
        find_char(s, i, c) matches Some(j) ==> forall|k: int| i <= k < j ==> #[trigger] s[k] != c,
        find_char(s, i, c) is None ==> forall|k: int| i <= k < s.len() ==> #[trigger] s[k] != c,
    decreases s.len() - i,
{
    if i < s.len() && s[i] != c {
        lemma_find_char_before(s, i + 1, c);
    }
}

/// Evaluates [`local_name`] when the position of the first colon is known.
pub proof fn lemma_local_name_at(n: Seq<char>, p: int)
    requires
        0 <= p < n.len(),
        n[p] == ':',
        forall|k: int| 0 <= k < p ==> #[trigger] n[k] != ':',
    ensures
        local_name(n) == n.subrange(p + 1, n.len() as int),
{
    lemma_find_char_region(n, 0, p, ':');
}

/// Looking a name up in a concatenation finds it in the left part first.
pub proof fn lemma_find_named_concat(a: Seq<SpecElem>, b: Seq<SpecElem>, l: Seq<char>)
    ensures
        find_named(a + b, l) == match find_named(a, l) {
            Some(e) => Some(e),
            None => find_named(b, l),
        },
    decreases a.len(),
{
    if a.len() == 0 {
        assert(a + b =~= b);
    } else {
        assert((a + b).first() == a.first());
        assert((a + b).drop_first() =~= a.drop_first() + b);
        lemma_find_named_concat(a.drop_first(), b, l);
    }
}

/// The character data of the first child of `e` with the given local name.
pub open spec fn child_text(e: SpecElem, local: Seq<char>) -> Option<Seq<char>> {
    match find_named(e.children, local) {
        Some(c) => Some(c.text),
        None => None,
    }
}

/// The character data of every child of `cs` with the given local name, in
/// document order: one entry for a single node, the full list for repeated
/// nodes, and the empty sequence when none occurs.
pub open spec fn texts_named(cs: Seq<SpecElem>, local: Seq<char>) -> Seq<Seq<char>>
    decreases cs.len(),
{
    if cs.len() == 0 {
        Seq::empty()
    } else {
        let rest = texts_named(cs.drop_first(), local);
        if local_name(cs.first().name) == local {
            seq![cs.first().text] + rest
        } else {
            rest
        }
    }
}

/// Every child of `cs` with the given local name, in document order.
pub open spec fn elems_named(cs: Seq<SpecElem>, local: Seq<char>) -> Seq<SpecElem>
    decreases cs.len(),
{
    if cs.len() == 0 {
        Seq::empty()
    } else {
        let rest = elems_named(cs.drop_first(), local);
        if local_name(cs.first().name) == local {
            seq![cs.first()] + rest
        } else {
            rest
        }
    }
}

/// Normalization of a repeated-or-scalar field: the decoded list splits as
/// the document does, so a single node yields exactly its one-entry list and
/// repeated nodes yield the full list in document order.
pub proof fn lemma_texts_named_concat(a: Seq<SpecElem>, b: Seq<SpecElem>, local: Seq<char>)
    ensures
        texts_named(a + b, local) == texts_named(a, local) + texts_named(b, local),
    decreases a.len(),
{
    if a.len() == 0 {
        assert(a + b =~= b);
        assert(texts_named(a, local) =~= Seq::<Seq<char>>::empty());
        assert(texts_named(a, local) + texts_named(b, local) =~~= texts_named(b, local));
    } else {
        assert((a + b).first() == a.first());
        assert((a + b).drop_first() =~= a.drop_first() + b);
        lemma_texts_named_concat(a.drop_first(), b, local);
        if local_name(a.first().name) == local {
            assert(seq![a.first().text] + (texts_named(a.drop_first(), local) + texts_named(
                b,
                local,
            )) =~~= (seq![a.first().text] + texts_named(a.drop_first(), local)) + texts_named(
                b,
                local,
            ));
        }
    }
}

/// A single node with the field's name decodes to its one-entry list; a
/// single node with another name contributes nothing.
pub proof fn lemma_texts_named_singleton(e: SpecElem, local: Seq<char>)
    ensures
        local_name(e.name) == local ==> texts_named(seq![e], local) == seq![e.text],
        local_name(e.name) != local ==> texts_named(seq![e], local) == Seq::<Seq<char>>::empty(),
{
    assert(seq![e].first() == e);
    assert(seq![e].drop_first() =~= Seq::<SpecElem>::empty());
    assert(texts_named(Seq::<SpecElem>::empty(), local) =~= Seq::<Seq<char>>::empty());
    if local_name(e.name) == local {
        assert(seq![e.text] + Seq::<Seq<char>>::empty() =~~= seq![e.text]);
        assert(texts_named(seq![e], local) =~~= seq![e.text]);
    } else {
        assert(texts_named(seq![e], local) =~~= Seq::<Seq<char>>::empty());
    }
}

pub proof fn lemma_texts_named_snoc(cs: Seq<SpecElem>, x: SpecElem, local: Seq<char>)
    ensures
        texts_named(cs.push(x), local) == if local_name(x.name) == local {
            texts_named(cs, local).push(x.text)
        } else {
            texts_named(cs, local)
        },
    decreases cs.len(),
{
    if cs.len() == 0 {
        assert(cs.push(x).drop_first() =~= Seq::<SpecElem>::empty());
        assert(cs.push(x).first() == x);
        assert(texts_named(Seq::<SpecElem>::empty(), local) =~= Seq::<Seq<char>>::empty());
        assert(texts_named(cs, local) =~~= Seq::<Seq<char>>::empty());
        if local_name(x.name) == local {
            assert(texts_named(cs.push(x), local) =~~= texts_named(cs, local).push(x.text));
        } else {
            assert(texts_named(cs.push(x), local) =~~= texts_named(cs, local));
        }
    } else {
        assert(cs.push(x).first() == cs.first());
        assert(cs.push(x).drop_first() =~= cs.drop_first().push(x));
        lemma_texts_named_snoc(cs.drop_first(), x, local);
        if local_name(x.name) == local {
            assert(texts_named(cs.push(x), local) =~~= texts_named(cs, local).push(x.text));
        } else {
            assert(texts_named(cs.push(x), local) =~~= texts_named(cs, local));
        }
    }
}

pub proof fn lemma_elems_named_snoc(cs: Seq<SpecElem>, x: SpecElem, local: Seq<char>)
    ensures
        elems_named(cs.push(x), local) == if local_name(x.name) == local {
            elems_named(cs, local).push(x)
        } else {
            elems_named(cs, local)
        },
    decreases cs.len(),
{
    if cs.len() == 0 {
        assert(cs.push(x).drop_first() =~= Seq::<SpecElem>::empty());
        assert(cs.push(x).first() == x);
        assert(elems_named(Seq::<SpecElem>::empty(), local) =~= Seq::<SpecElem>::empty());
        assert(elems_named(cs, local) =~= Seq::<SpecElem>::empty());
        if local_name(x.name) == local {
            assert(elems_named(cs.push(x), local) =~= elems_named(cs, local).push(x));
        } else {
            assert(elems_named(cs.push(x), local) =~= elems_named(cs, local));
        }
    } else {
        assert(cs.push(x).first() == cs.first());
        assert(cs.push(x).drop_first() =~= cs.drop_first().push(x));
        lemma_elems_named_snoc(cs.drop_first(), x, local);
        if local_name(x.name) == local {
            assert(elems_named(cs.push(x), local) =~= elems_named(cs, local).push(x));
        } else {
            assert(elems_named(cs.push(x), local) =~= elems_named(cs, local));
        }
    }
}

/// A reason a document failed to decode.
#[derive(Debug)]
pub enum XmlError {
    /// Malformed XML; `offset` is the character position where parsing stopped.
    Syntax { offset: usize },
    /// A required element was absent from its parent.
    MissingElement { name: String },
    /// An element's character data was not of the form its field requires.
    BadValue { name: String },
    /// The document's root element does not carry the expected name.
    WrongRoot,
}

pub proof fn lemma_print_children_snoc(s: Seq<SpecElem>, e: SpecElem)
    ensures
        print_children(s.push(e)) == print_children(s) + print_elem(e),
    decreases s.len(),
{
    if s.len() == 0 {
        assert(s.push(e).drop_first() =~= Seq::<SpecElem>::empty());
        assert(s.push(e).first() == e);
        assert(print_children(Seq::<SpecElem>::empty()) =~= Seq::<char>::empty());
        assert(print_children(s.push(e)) =~= print_elem(e) + Seq::<char>::empty());
        assert(print_elem(e) + Seq::<char>::empty() =~= print_elem(e));
        assert(s =~= Seq::<SpecElem>::empty());
        assert(print_children(s) + print_elem(e) =~= print_elem(e));
    } else {
        assert(s.push(e).first() == s.first());
        assert(s.push(e).drop_first() =~= s.drop_first().push(e));
        lemma_print_children_snoc(s.drop_first(), e);
        assert(print_elem(s.first()) + (print_children(s.drop_first()) + print_elem(e)) =~= (
        print_elem(s.first()) + print_children(s.drop_first())) + print_elem(e));
    }
}

pub proof fn lemma_elems_view_push(s: Seq<Element>, x: Element)
    ensures
        elems_view(s.push(x)) == elems_view(s).push(x@),
{
    assert(s.push(x).drop_last() =~= s);
    assert(s.push(x).last() == x);
}

fn append_elem(out: &mut String, e: &Element)
    ensures
        final(out)@ == old(out)@ + print_elem(e@),
    decreases *e,
{
    proof {
        reveal_strlit("<");
        reveal_strlit(">");
        reveal_strlit("</");
        assert("<"@ =~= seq!['<']);
        assert(">"@ =~= seq!['>']);
        assert("</"@ =~= seq!['<', '/']);
    }
    out.append("<");
    out.append(e.name.as_str());
    out.append(">");
    if e.children.len() == 0 {
        out.append(e.text.as_str());
        proof {
            assert(e@.children.len() == 0);
        }
    } else {
        let ghost mid = out@;
        let mut idx: usize = 0;
        proof {
            assert(e.children@.subrange(0, 0) =~= Seq::<Element>::empty());
            assert(elems_view(e.children@.subrange(0, 0)) =~= Seq::<SpecElem>::empty());
            assert(mid + print_children(elems_view(e.children@.subrange(0, 0))) =~= mid);
        }
        while idx < e.children.len()
            invariant
                idx <= e.children.len(),
                out@ == mid + print_children(elems_view(e.children@.subrange(0, idx as int))),
            decreases e.children.len() - idx,
        {
            proof {
                assert(decreases_to!(*e => e.children[idx as int]));
            }
            append_elem(out, &e.children[idx]);
            proof {
                let pre = e.children@.subrange(0, idx as int);
                assert(e.children@.subrange(0, idx as int + 1) =~= pre.push(
                    e.children@[idx as int],
                ));
                lemma_elems_view_push(pre, e.children@[idx as int]);
                lemma_print_children_snoc(elems_view(pre), e.children@[idx as int]@);
                assert(mid + print_children(elems_view(pre)) + print_elem(e.children@[idx as int]@)
                    =~= mid + (print_children(elems_view(pre)) + print_elem(
                    e.children@[idx as int]@,
                )));
            }
            idx += 1;
        }
        proof {
            assert(e.children@.subrange(0, e.children@.len() as int) =~= e.children@);
            assert(e@.children == elems_view(e.children@));
            assert(e@.children.len() > 0) by {
                lemma_elems_view_index(e.children@);
            }
        }
    }
    out.append("</");
    out.append(e.name.as_str());
    out.append(">");
    proof {
        assert(out@ =~= old(out)@ + print_elem(e@));
    }
}

pub proof fn lemma_scan_name_region(s: Seq<char>, i: int, j: int)
    requires
        0 <= i <= j < s.len(),
        forall|k: int| i <= k < j ==> wf_name_char(#[trigger] s[k]),
        !wf_name_char(s[j]),
    ensures
        scan_name_end(s, i) == j,
    decreases j - i,
{
    if i < j {
        lemma_scan_name_region(s, i + 1, j);
    }
}

pub proof fn lemma_find_char_region(s: Seq<char>, i: int, j: int, c: char)
    requires
        0 <= i <= j < s.len(),
        forall|k: int| i <= k < j ==> #[trigger] s[k] != c,
        s[j] == c,
    ensures
        find_char(s, i, c) == Some(j),
    decreases j - i,
{
    if i < j {
        lemma_find_char_region(s, i + 1, j, c);
    }
}

pub proof fn lemma_find_pi_region(s: Seq<char>, i: int, j: int)
    requires
        0 <= i <= j,
        j + 1 < s.len(),
        forall|k: int| i <= k < j ==> !(#[trigger] s[k] == '?' && s[k + 1] == '>'),
        s[j] == '?',
        s[j + 1] == '>',
    ensures
        find_pi_end(s, i) == Some(j + 2),
    decreases j - i,
{
    if i < j {
        lemma_find_pi_region(s, i + 1, j);
    }
}

/// Parsing a printed element back, wherever it is embedded, yields exactly
/// that element and consumes exactly the printed characters.
#[verifier::rlimit(60)]
pub proof fn lemma_parse_print_elem(e: SpecElem, s: Seq<char>, i: int)
    requires
        wf_elem(e),
        0 <= i,
        i + print_elem(e).len() <= s.len(),
        s.subrange(i, i + print_elem(e).len()) == print_elem(e),
    ensures
        spec_parse_elem(s, i) == Some((e, i + print_elem(e).len())),
    decreases e, 1int,
{
    let p = print_elem(e);
    let nm = e.name;
    let l = nm.len() as int;
    let inner = if e.children.len() > 0 {
        print_children(e.children)
    } else {
        e.text
    };
    let li = inner.len() as int;
    let ot = seq!['<'] + nm + seq!['>'];
    let ct = seq!['<', '/'] + nm + seq!['>'];
    assert(p =~= ot + inner + ct);
    assert(p.len() == 2 * l + li + 5);
    assert forall|k: int| 0 <= k < p.len() implies s[i + k] == p[k] by {
        assert(s.subrange(i, i + p.len())[k] == s[i + k]);
    }
    assert(ot[0] == '<');
    assert forall|k: int| 0 <= k < l implies ot[1 + k] == nm[k] by {}
    assert(ot[l + 1] == '>');
    assert(ct[0] == '<');
    assert(ct[1] == '/');
    assert forall|k: int| 0 <= k < l implies ct[2 + k] == nm[k] by {}
    assert(ct[l + 2] == '>');
    assert forall|k: int| 0 <= k < ot.len() implies p[k] == ot[k] by {}
    assert forall|k: int| 0 <= k < li implies p[l + 2 + k] == inner[k] by {}
    assert forall|k: int| 0 <= k < ct.len() implies p[l + 2 + li + k] == ct[k] by {}
    // the opening tag
    assert(s[i] == '<');
    assert(i + 1 < s.len());
    assert forall|k: int| i + 1 <= k < i + 1 + l implies wf_name_char(#[trigger] s[k]) by {
        assert(s[k] == nm[k - i - 1]);
    }
    assert(s[i + 1 + l] == '>');
    assert(!wf_name_char('>'));
    lemma_scan_name_region(s, i + 1, i + 1 + l);
    let ne = i + 1 + l;
    assert(s.subrange(i + 1, ne) =~= nm);
    assert(scan_tag_end(s, ne) == Some(ne));
    // content
    let cstart = ne + 1;
    if e.children.len() > 0 {
        assert(e.text =~= Seq::<char>::empty());
        assert forall|k: int| 0 <= k < li + l + 3 implies s.subrange(
            cstart,
            cstart + li + l + 3,
        )[k] == (inner + ct)[k] by {
            assert(s[cstart + k] == p[l + 2 + k]);
        }
        assert(s.subrange(cstart, cstart + li + l + 3) =~= inner + ct);
        lemma_parse_print_children(e.children, nm, s, cstart);
        assert(spec_parse_content(s, cstart, nm) == Some(
            (e.children, Seq::<char>::empty(), cstart + li + l + 3),
        ));
        assert(spec_parse_elem(s, i) == Some((e, i + p.len())));
    } else {
        assert(e.children =~= Seq::<SpecElem>::empty());
        assert(inner == e.text);
        // text runs to the `<` of the closing tag
        let j = cstart + li;
        assert forall|k: int| cstart <= k < j implies #[trigger] s[k] != '<' by {
            assert(s[k] == inner[k - cstart]);
        }
        assert(s[j] == '<');
        lemma_find_char_region(s, cstart, j, '<');
        assert(s[j + 1] == '/');
        let ce = j + 2 + l;
        assert forall|k: int| 0 <= k < l implies s.subrange(j + 2, ce)[k] == nm[k] by {
            assert(s[j + 2 + k] == p[l + 2 + li + 2 + k]);
        }
        assert(s.subrange(j + 2, ce) =~= nm);
        assert(s[ce] == '>');
        assert(ce < s.len());
        assert(spec_parse_content(s, cstart, nm) == Some(
            (Seq::<SpecElem>::empty(), unescape(s.subrange(cstart, j)), ce + 1),
        ));
        assert(s.subrange(cstart, j) =~= e.text);
        lemma_unescape_plain(e.text);
        assert(spec_parse_elem(s, i) == Some((e, i + p.len())));
    }
}

/// Parsing the printed children of an element followed by its closing tag
/// yields exactly those children.
#[verifier::rlimit(60)]
pub proof fn lemma_parse_print_children(cs: Seq<SpecElem>, close: Seq<char>, s: Seq<char>, i: int)
    requires
        forall|k: int| 0 <= k < cs.len() ==> wf_elem(#[trigger] cs[k]),
        wf_name(close),
        0 <= i,
        i + print_children(cs).len() + close.len() + 3 <= s.len(),
        s.subrange(i, i + print_children(cs).len() + close.len() + 3) == print_children(cs) + (
        seq!['<', '/'] + close + seq!['>']),
    ensures
        spec_parse_content(s, i, close) == Some(
            (cs, Seq::<char>::empty(), i + print_children(cs).len() + close.len() + 3),
        ),
    decreases cs, 0int,
{
    let ct = seq!['<', '/'] + close + seq!['>'];
    let body = print_children(cs) + ct;
    let l = close.len() as int;
    assert forall|k: int| 0 <= k < body.len() implies s[i + k] == body[k] by {
        assert(s.subrange(i, i + body.len())[k] == s[i + k]);
    }
    assert(ct[0] == '<');
    assert(ct[1] == '/');
    assert forall|k: int| 0 <= k < l implies ct[2 + k] == close[k] by {}
    assert(ct[l + 2] == '>');
    if cs.len() == 0 {
        assert(print_children(cs) =~= Seq::<char>::empty());
        assert(body =~= ct);
        assert(s[i] == '<');
        assert(find_char(s, i, '<') == Some(i));
        assert(s[i + 1] == '/');
        let ce = i + 2 + l;
        assert forall|k: int| 0 <= k < l implies s.subrange(i + 2, ce)[k] == close[k] by {
            assert(s[i + 2 + k] == body[2 + k]);
        }
        assert(s.subrange(i + 2, ce) =~= close);
        assert(s[ce] == '>');
        assert(s.subrange(i, i) =~= Seq::<char>::empty());
        assert(unescape(Seq::<char>::empty()) =~= Seq::<char>::empty());
        assert(spec_parse_content(s, i, close) == Some(
            (Seq::<SpecElem>::empty(), unescape(s.subrange(i, i)), ce + 1),
        ));
        assert(cs =~= Seq::<SpecElem>::empty());
    } else {
        let c0 = cs.first();
        let rest = cs.drop_first();
        let pc = print_elem(c0);
        let rb = print_children(rest) + ct;
        assert(print_children(cs) == pc + print_children(rest));
        assert(body =~= pc + rb);
        assert forall|k: int| 0 <= k < pc.len() implies body[k] == pc[k] by {}
        assert forall|k: int| 0 <= k < rb.len() implies body[pc.len() + k] == rb[k] by {}
        // the first child starts right here
        assert(s[i] == pc[0]);
        assert(pc[0] == '<');
        assert(find_char(s, i, '<') == Some(i));
        assert(pc[1] == c0.name[0]);
        assert(wf_name_char(c0.name[0]));
        assert(s[i + 1] != '/');
        assert forall|k: int| 0 <= k < pc.len() implies s.subrange(i, i + pc.len())[k] == pc[k] by {
            assert(s[i + k] == body[k]);
        }
        assert(s.subrange(i, i + pc.len()) =~= pc);
        lemma_parse_print_elem(c0, s, i);
        let k0 = i + pc.len();
        assert(spec_parse_elem(s, i) == Some((c0, k0)));
        // and the remaining children follow
        assert forall|k: int| 0 <= k < rb.len() implies s.subrange(k0, k0 + rb.len())[k]
            == rb[k] by {
            assert(s[k0 + k] == body[pc.len() + k]);
        }
        assert(s.subrange(k0, k0 + rb.len()) =~= rb);
        lemma_parse_print_children(rest, close, s, k0);
        let end = k0 + print_children(rest).len() + l + 3;
        assert(spec_parse_content(s, k0, close) == Some((rest, Seq::<char>::empty(), end)));
        assert(seq![c0] + rest =~= cs);
        assert(spec_parse_content(s, i, close) == Some(
            (cs, Seq::<char>::empty(), i + print_children(cs).len() + l + 3),
        ));
    }
}

/// The declaration this library writes at the start of every document.
pub open spec fn prolog_chars() -> Seq<char> {
    seq![
        '<',
        '?',
        'x',
        'm',
        'l',
        ' ',
        'v',
        'e',
        'r',
        's',
        'i',
        'o',
        'n',
        '=',
        '"',
        '1',
        '.',
        '0',
        '"',
        ' ',
        'e',
        'n',
        'c',
        'o',
        'd',
        'i',
        'n',
        'g',
        '=',
        '"',
        'u',
        't',
        'f',
        '-',
        '8',
        '"',
        '?',
        '>',
    ]
}

pub proof fn lemma_prolog_literal()
    ensures
        "<?xml version=\"1.0\" encoding=\"utf-8\"?>"@ == prolog_chars(),
{
    reveal_strlit("<?xml version=\"1.0\" encoding=\"utf-8\"?>");
    assert("<?xml version=\"1.0\" encoding=\"utf-8\"?>"@ =~= prolog_chars());
}

/// A whole printed document (declaration plus root element) parses back to
/// the element it was printed from.
pub proof fn lemma_parse_print_document(e: SpecElem, s: Seq<char>)
    requires
        wf_elem(e),
        s == prolog_chars() + print_elem(e),
    ensures
        spec_parse_document(s) == Some(e),
{
    let pr = prolog_chars();
    let p = print_elem(e);
    assert(p.len() >= 7);
    assert forall|k: int| 0 <= k < 38 implies s[k] == pr[k] by {}
    assert forall|k: int| 0 <= k < p.len() implies s[38 + k] == p[k] by {}
    assert(s[0] == '<');
    assert(!is_ws('<'));
    assert(skip_ws(s, 0) == 0);
    assert(s[1] == '?');
    assert forall|k: int| 2 <= k < 36 implies !(#[trigger] s[k] == '?' && s[k + 1] == '>') by {
        assert(s[k] == pr[k]);
        assert(s[k + 1] == pr[k + 1]);
    }
    assert(s[36] == '?');
    assert(s[37] == '>');
    lemma_find_pi_region(s, 2, 36);
    assert(find_pi_end(s, 2) == Some(38int));
    assert(p[0] == '<');
    assert(s[38] == '<');
    assert(skip_ws(s, 38) == 38);
    assert forall|k: int| 0 <= k < p.len() implies s.subrange(38, 38 + p.len() as int)[k] == p[k] by {
        assert(s[38 + k] == p[k]);
    }
    assert(s.subrange(38, 38 + p.len() as int) =~= p);
    lemma_parse_print_elem(e, s, 38);
    assert(spec_parse_document(s) == Some(e));
}

/// Prints a whole document: the XML declaration followed by the root element.
pub fn print_document(e: &Element) -> (out: String)
    ensures
        out@ == prolog_chars() + print_elem(e@),
{
    let mut out: String = String::from_str("<?xml version=\"1.0\" encoding=\"utf-8\"?>");
    proof {
        lemma_prolog_literal();
    }
    append_elem(&mut out, e);
    out
}

fn is_ws_x(c: char) -> (r: bool)
    ensures
        r == is_ws(c),
{
    c == ' ' || c == '\t' || c == '\r' || c == '\n'
}

fn wf_name_char_x(c: char) -> (r: bool)
    ensures
        r == wf_name_char(c),
{
    ('a' <= c && c <= 'z') || ('A' <= c && c <= 'Z') || ('0' <= c && c <= '9') || c == ':' || c
        == '_' || c == '-' || c == '.'
}

fn skip_ws_x(s: &str, n: usize, i: usize) -> (r: usize)
    requires
        n == s@.len(),
        i <= n,
    ensures
        r as int == skip_ws(s@, i as int),
        i <= r <= n,
{
    let mut j = i;
    loop
        invariant
            i <= j <= n,
            n == s@.len(),
            skip_ws(s@, i as int) == skip_ws(s@, j as int),
        ensures
            j as int == skip_ws(s@, i as int),
            i <= j <= n,
        decreases n - j,
    {
        if j >= n {
            break ;
        }
        let c = s.get_char(j);
        if !is_ws_x(c) {
            break ;
        }
        j += 1;
    }
    j
}

fn scan_name_end_x(s: &str, n: usize, i: usize) -> (r: usize)
    requires
        n == s@.len(),
        i <= n,
    ensures
        r as int == scan_name_end(s@, i as int),
        i <= r <= n,
{
    let mut j = i;
    loop
        invariant
            i <= j <= n,
            n == s@.len(),
            scan_name_end(s@, i as int) == scan_name_end(s@, j as int),
        ensures
            j as int == scan_name_end(s@, i as int),
            i <= j <= n,
        decreases n - j,
    {
        if j >= n {
            break ;
        }
        let c = s.get_char(j);
        if !wf_name_char_x(c) {
            break ;
        }
        j += 1;
    }
    j
}

pub(crate) fn find_char_x(s: &str, n: usize, i: usize, c: char) -> (r: Option<usize>)
    requires
        n == s@.len(),
        i <= n,
    ensures
        match r {
            Some(j) => find_char(s@, i as int, c) == Some(j as int) && i <= j < n && s@[j as int]
                == c,
            None => find_char(s@, i as int, c) is None,
        },
{
    let mut j = i;
    loop
        invariant
            i <= j <= n,
            n == s@.len(),
            find_char(s@, i as int, c) == find_char(s@, j as int, c),
        ensures
            i <= j <= n,
            find_char(s@, i as int, c) == find_char(s@, j as int, c),
            j < n ==> s@[j as int] == c && find_char(s@, j as int, c) == Some(j as int),
            j >= n ==> find_char(s@, j as int, c) is None,
        decreases n - j,
    {
        if j >= n {
            break ;
        }
        if s.get_char(j) == c {
            break ;
        }
        j += 1;
    }
    if j < n {
        Some(j)
    } else {
        None
    }
}

fn scan_tag_end_x(s: &str, n: usize, i: usize) -> (r: Option<usize>)
    requires
        n == s@.len(),
        i <= n,
    ensures
        match r {
            Some(g) => scan_tag_end(s@, i as int) == Some(g as int) && i <= g < n && s@[g as int]
                == '>',
            None => scan_tag_end(s@, i as int) is None,
        },
{
    let mut j = i;
    loop
        invariant
            i <= j <= n,
            n == s@.len(),
            scan_tag_end(s@, i as int) == scan_tag_end(s@, j as int),
        decreases n - j,
    {
        if j >= n {
            return None;
        }
        let c = s.get_char(j);
        if c == '>' {
            return Some(j);
        } else if c == '"' || c == '\'' {
            match find_char_x(s, n, j + 1, c) {
                None => {
                    return None;
                },
                Some(q) => {
                    proof {
                        assert(scan_tag_end(s@, j as int) == scan_tag_end(s@, q as int + 1));
                    }
                    j = q + 1;
                },
            }
        } else {
            j += 1;
        }
    }
}

/// The executable counterpart of [`unescape`].
fn unescape_x(t: &str) -> (out: String)
    ensures
        out@ == unescape(t@),
{
    proof {
        reveal_strlit("&");
        reveal_strlit("<");
        reveal_strlit(">");
        reveal_strlit("\"");
        reveal_strlit("'");
        assert("&"@ =~= seq!['&']);
        assert("<"@ =~= seq!['<']);
        assert(">"@ =~= seq!['>']);
        assert("\""@ =~= seq!['"']);
        assert("'"@ =~= seq!['\'']);
    }
    let n = t.unicode_len();
    let mut out = String::new();
    let mut pos: usize = 0;
    proof {
        assert(t@.skip(0) =~= t@);
        assert(Seq::<char>::empty() + unescape(t@) =~= unescape(t@));
    }
    loop
        invariant
            pos <= n,
            n == t@.len(),
            out@ + unescape(t@.skip(pos as int)) == unescape(t@),
        ensures
            out@ == unescape(t@),
        decreases n - pos,
    {
        proof {
            reveal_strlit("&");
            reveal_strlit("<");
            reveal_strlit(">");
            reveal_strlit("\"");
            reveal_strlit("'");
            assert("&"@ =~= seq!['&']);
            assert("<"@ =~= seq!['<']);
            assert(">"@ =~= seq!['>']);
            assert("\""@ =~= seq!['"']);
            assert("'"@ =~= seq!['\'']);
        }
        if pos >= n {
            proof {
                assert(t@.skip(pos as int).len() == 0);
                assert(unescape(t@.skip(pos as int)) =~= Seq::<char>::empty());
                assert(out@ + Seq::<char>::empty() =~= out@);
            }
            break ;
        }
        let ghost rest = t@.skip(pos as int);
        proof {
            assert(rest.len() == n - pos);
            assert forall|k: int| 0 <= k < rest.len() implies #[trigger] rest[k] == t@[pos + k] by {}
        }
        if t.get_char(pos) != '&' {
            // copy the run up to the next entity introducer wholesale
            let amp = match find_char_x(t, n, pos, '&') {
                Some(a) => a,
                None => n,
            };
            proof {
                lemma_find_char_before(t@, pos as int, '&');
            }
            let chunk = t.substring_char(pos, amp);
            out.append(chunk);
            proof {
                let cv = t@.subrange(pos as int, amp as int);
                assert forall|k: int| 0 <= k < cv.len() implies #[trigger] cv[k] != '&' by {
                    assert(cv[k] == t@[pos + k]);
                }
                assert(t@.skip(pos as int) =~= cv + t@.skip(amp as int));
                lemma_unescape_concat_plain(cv, t@.skip(amp as int));
                assert(out@ + unescape(t@.skip(amp as int)) =~= unescape(t@));
            }
            pos = amp;
        } else {
            // an entity reference, or a bare `&` kept literally
            if n - pos > 4 && t.get_char(pos + 1) == 'a' && t.get_char(pos + 2) == 'm'
                && t.get_char(pos + 3) == 'p' && t.get_char(pos + 4) == ';' {
                let ghost prev_out = out@;
                out.append("&");
                proof {
                    assert(out@ =~= prev_out + seq!['&']);
                    assert(rest.skip(5) =~= t@.skip(pos as int + 5));
                    assert(unescape(rest) == seq!['&'] + unescape(t@.skip(pos as int + 5)));
                    assert(prev_out + unescape(rest) == unescape(t@));
                    assert(out@ + unescape(t@.skip(pos as int + 5)) =~= prev_out + unescape(
                        rest,
                    ));
                    assert(out@ + unescape(t@.skip(pos as int + 5)) == unescape(t@));
                }
                pos = pos + 5;
            } else if n - pos > 3 && t.get_char(pos + 1) == 'l' && t.get_char(pos + 2) == 't'
                && t.get_char(pos + 3) == ';' {
                let ghost prev_out = out@;
                out.append("<");
                proof {
                    assert(out@ =~= prev_out + seq!['<']);
                    assert(rest.skip(4) =~= t@.skip(pos as int + 4));
                    assert(unescape(rest) == seq!['<'] + unescape(t@.skip(pos as int + 4)));
                    assert(prev_out + unescape(rest) == unescape(t@));
                    assert(out@ + unescape(t@.skip(pos as int + 4)) =~= prev_out + unescape(
                        rest,
                    ));
                    assert(out@ + unescape(t@.skip(pos as int + 4)) == unescape(t@));
                }
                pos = pos + 4;
            } else if n - pos > 3 && t.get_char(pos + 1) == 'g' && t.get_char(pos + 2) == 't'
                && t.get_char(pos + 3) == ';' {
                let ghost prev_out = out@;
                out.append(">");
                proof {
                    assert(out@ =~= prev_out + seq!['>']);
                    assert(rest.skip(4) =~= t@.skip(pos as int + 4));
                    assert(unescape(rest) == seq!['>'] + unescape(t@.skip(pos as int + 4)));
                    assert(prev_out + unescape(rest) == unescape(t@));
                    assert(out@ + unescape(t@.skip(pos as int + 4)) =~= prev_out + unescape(
                        rest,
                    ));
                    assert(out@ + unescape(t@.skip(pos as int + 4)) == unescape(t@));
                }
                pos = pos + 4;
            } else if n - pos > 5 && t.get_char(pos + 1) == 'q' && t.get_char(pos + 2) == 'u'
                && t.get_char(pos + 3) == 'o' && t.get_char(pos + 4) == 't' && t.get_char(pos + 5)
                == ';' {
                let ghost prev_out = out@;
                out.append("\"");
                proof {
                    assert(out@ =~= prev_out + seq!['"']);
                    assert(rest.skip(6) =~= t@.skip(pos as int + 6));
                    assert(unescape(rest) == seq!['"'] + unescape(t@.skip(pos as int + 6)));
                    assert(prev_out + unescape(rest) == unescape(t@));
                    assert(out@ + unescape(t@.skip(pos as int + 6)) =~= prev_out + unescape(
                        rest,
                    ));
                    assert(out@ + unescape(t@.skip(pos as int + 6)) == unescape(t@));
                }
                pos = pos + 6;
            } else if n - pos > 5 && t.get_char(pos + 1) == 'a' && t.get_char(pos + 2) == 'p'
                && t.get_char(pos + 3) == 'o' && t.get_char(pos + 4) == 's' && t.get_char(pos + 5)
                == ';' {
                let ghost prev_out = out@;
                out.append("'");
                proof {
                    assert(out@ =~= prev_out + seq!['\'']);
                    assert(rest.skip(6) =~= t@.skip(pos as int + 6));
                    assert(unescape(rest) == seq!['\''] + unescape(t@.skip(pos as int + 6)));
                    assert(prev_out + unescape(rest) == unescape(t@));
                    assert(out@ + unescape(t@.skip(pos as int + 6)) =~= prev_out + unescape(
                        rest,
                    ));
                    assert(out@ + unescape(t@.skip(pos as int + 6)) == unescape(t@));
                }
                pos = pos + 6;
            } else {
                let ghost prev_out = out@;
                out.append("&");
                proof {
                    assert(out@ =~= prev_out + seq!['&']);
                    assert(rest.skip(1) =~= t@.skip(pos as int + 1));
                    assert(unescape(rest) == seq!['&'] + unescape(t@.skip(pos as int + 1)));
                    assert(prev_out + unescape(rest) == unescape(t@));
                    assert(out@ + unescape(t@.skip(pos as int + 1)) =~= prev_out + unescape(
                        rest,
                    ));
                    assert(out@ + unescape(t@.skip(pos as int + 1)) == unescape(t@));
                }
                pos = pos + 1;
            }
        }
    }
    out
}

/// Splices children already parsed in front of the remaining content result.
pub open spec fn content_glue(acc: Seq<Element>, r: Option<(Seq<SpecElem>, Seq<char>, int)>) -> Option<
    (Seq<SpecElem>, Seq<char>, int),
> {
    match r {
        None => None,
        Some((rest, t, end)) => Some(
            (
                elems_view(acc) + rest,
                if acc.len() == 0 {
                    t
                } else {
                    Seq::empty()
                },
                end,
            ),
        ),
    }
}

fn parse_elem_x(s: &str, n: usize, i: usize) -> (r: Result<(Element, usize), XmlError>)
    requires
        n == s@.len(),
        i <= n,
    ensures
        match r {
            Ok((e, j)) => spec_parse_elem(s@, i as int) == Some((e@, j as int)) && i < j <= n,
            Err(_) => spec_parse_elem(s@, i as int) is None,
        },
    decreases n - i, 0int,
{
    if i >= n || i + 1 >= n || s.get_char(i) != '<' {
        return Err(XmlError::Syntax { offset: i });
    }
    let ne = scan_name_end_x(s, n, i + 1);
    if ne == i + 1 {
        return Err(XmlError::Syntax { offset: i });
    }
    let name: String = s.substring_char(i + 1, ne).to_owned();
    proof {
        assert(name@ == s@.subrange(i as int + 1, ne as int));
    }
    match scan_tag_end_x(s, n, ne) {
        None => Err(XmlError::Syntax { offset: ne }),
        Some(gt) => {
            if gt > ne && s.get_char(gt - 1) == '/' {
                let e = Element { name, text: String::new(), children: Vec::new() };
                proof {
                    assert(elems_view(e.children@) =~= Seq::<SpecElem>::empty());
                    assert(e@ == SpecElem {
                        name: s@.subrange(i as int + 1, ne as int),
                        text: Seq::<char>::empty(),
                        children: Seq::<SpecElem>::empty(),
                    });
                }
                Ok((e, gt + 1))
            } else {
                match parse_content_x(s, n, gt + 1, name.as_str()) {
                    Err(er) => Err(er),
                    Ok((children, text, end)) => {
                        let e = Element { name, text, children };
                        Ok((e, end))
                    },
                }
            }
        },
    }
}

fn parse_content_x(s: &str, n: usize, i: usize, close: &str) -> (r: Result<
    (Vec<Element>, String, usize),
    XmlError,
>)
    requires
        n == s@.len(),
        i <= n,
    ensures
        match r {
            Ok((ch, t, end)) => spec_parse_content(s@, i as int, close@) == Some(
                (elems_view(ch@), t@, end as int),
            ) && i < end <= n,
            Err(_) => spec_parse_content(s@, i as int, close@) is None,
        },
    decreases n - i, 1int,
{
    let close_len = close.unicode_len();
    let mut children: Vec<Element> = Vec::new();
    let mut pos: usize = i;
    proof {
        assert(elems_view(children@) =~= Seq::<SpecElem>::empty());
    }
    loop
        invariant
            i <= pos <= n,
            n == s@.len(),
            close_len == close@.len(),
            pos > i || children@.len() == 0,
            spec_parse_content(s@, i as int, close@) == content_glue(
                children@,
                spec_parse_content(s@, pos as int, close@),
            ),
        decreases n - pos,
    {
        let j = match find_char_x(s, n, pos, '<') {
            None => {
                return Err(XmlError::Syntax { offset: pos });
            },
            Some(j) => j,
        };
        if j + 1 >= n {
            return Err(XmlError::Syntax { offset: j });
        }
        if s.get_char(j + 1) == '/' {
            // closing tag: must match `close` exactly
            if close_len > n - (j + 2) {
                return Err(XmlError::Syntax { offset: j });
            }
            let ce = j + 2 + close_len;
            if ce >= n {
                return Err(XmlError::Syntax { offset: j });
            }
            let tag = s.substring_char(j + 2, ce);
            if !crate::util::str_eq(tag, close) {
                return Err(XmlError::Syntax { offset: j });
            }
            if s.get_char(ce) != '>' {
                return Err(XmlError::Syntax { offset: ce });
            }
            let text: String = if children.len() == 0 {
                unescape_x(s.substring_char(pos, j))
            } else {
                String::new()
            };
            proof {
                assert(spec_parse_content(s@, pos as int, close@) == Some(
                    (
                        Seq::<SpecElem>::empty(),
                        unescape(s@.subrange(pos as int, j as int)),
                        ce + 1int,
                    ),
                ));
                assert(elems_view(children@) + Seq::<SpecElem>::empty() =~= elems_view(
                    children@,
                ));
            }
            return Ok((children, text, ce + 1));
        }
        // a child element
        let (child, k) = match parse_elem_x(s, n, j) {
            Err(er) => {
                proof {
                    assert(spec_parse_content(s@, pos as int, close@) is None);
                }
                return Err(er);
            },
            Ok(ck) => ck,
        };
        proof {
            let rec = spec_parse_content(s@, k as int, close@);
            assert(spec_parse_content(s@, pos as int, close@) == (match rec {
                None => None,
                Some((rest, _t, end)) => Some((seq![child@] + rest, Seq::<char>::empty(), end)),
            }));
            lemma_elems_view_push(children@, child);
            if rec is Some {
                let (rest, _t, end) = rec.unwrap();
                assert(elems_view(children@) + (seq![child@] + rest) =~= elems_view(
                    children@.push(child),
                ) + rest);
            }
        }
        children.push(child);
        pos = k;
    }
}

fn find_pi_end_x(s: &str, n: usize, i: usize) -> (r: Option<usize>)
    requires
        n == s@.len(),
        i <= n,
    ensures
        match r {
            Some(j) => find_pi_end(s@, i as int) == Some(j as int) && i < j <= n,
            None => find_pi_end(s@, i as int) is None,
        },
{
    let mut j = i;
    loop
        invariant
            i <= j <= n,
            n == s@.len(),
            find_pi_end(s@, i as int) == find_pi_end(s@, j as int),
        decreases n - j,
    {
        if j >= n || j + 1 >= n {
            return None;
        }
        if s.get_char(j) == '?' && s.get_char(j + 1) == '>' {
            return Some(j + 2);
        }
        j += 1;
    }
}

/// Parses a whole XML document, as [`spec_parse_document`] describes.
pub fn parse_document(s: &str) -> (r: Result<Element, XmlError>)
    ensures
        match r {
            Ok(e) => spec_parse_document(s@) == Some(e@),
            Err(_) => spec_parse_document(s@) is None,
        },
{
    let n = s.unicode_len();
    let i0 = skip_ws_x(s, n, 0);
    let start: usize;
    if i0 < n && i0 + 1 < n && s.get_char(i0) == '<' && s.get_char(i0 + 1) == '?' {
        match find_pi_end_x(s, n, i0 + 2) {
            None => {
                return Err(XmlError::Syntax { offset: i0 });
            },
            Some(j) => {
                start = skip_ws_x(s, n, j);
            },
        }
    } else {
        start = i0;
    }
    match parse_elem_x(s, n, start) {
        Ok((e, _end)) => Ok(e),
        Err(er) => Err(er),
    }
}

/// The executable counterpart of [`local_name`].
pub fn local_name_x(n: &str) -> (r: &str)
    ensures
        r@ == local_name(n@),
{
    let len = n.unicode_len();
    match find_char_x(n, len, 0, ':') {
        Some(j) => n.substring_char(j + 1, len),
        None => n,
    }
}

impl Element {
    /// The first child with the given local name.
    pub fn child<'a>(&'a self, local: &str) -> (r: Option<&'a Element>)
        ensures
            match r {
                Some(c) => find_named(self@.children, local@) == Some(c@),
                None => find_named(self@.children, local@) is None,
            },
    {
        let ghost cv = elems_view(self.children@);
        proof {
            lemma_elems_view_index(self.children@);
            assert(cv.skip(0) =~= cv);
        }
        let mut i: usize = 0;
        while i < self.children.len()
            invariant
                i <= self.children.len(),
                cv == elems_view(self.children@),
                cv.len() == self.children.len(),
                forall|k: int| 0 <= k < self.children.len() ==> cv[k] == #[trigger] self
                    .children@[k]@,
                find_named(self@.children, local@) == find_named(cv.skip(i as int), local@),
            decreases self.children.len() - i,
        {
            let ln = local_name_x(self.children[i].name.as_str());
            proof {
                assert(cv.skip(i as int).first() == cv[i as int]);
                assert(cv[i as int] == self.children@[i as int]@);
                assert(cv[i as int].name == self.children@[i as int].name@);
                assert(ln@ == local_name(cv[i as int].name));
            }
            if crate::util::str_eq(ln, local) {
                return Some(&self.children[i]);
            }
            proof {
                assert(local_name(cv[i as int].name) != local@);
                assert(cv.skip(i as int).drop_first() =~= cv.skip(i as int + 1));
                assert(find_named(cv.skip(i as int), local@) == find_named(
                    cv.skip(i as int + 1),
                    local@,
                ));
            }
            i += 1;
        }
        proof {
            assert(cv.skip(i as int).len() == 0);
        }
        None
    }

    /// The character data of the first child with the given local name.
    pub fn child_text<'a>(&'a self, local: &str) -> (r: Option<&'a str>)
        ensures
            match r {
                Some(t) => child_text(self@, local@) == Some(t@),
                None => child_text(self@, local@) is None,
            },
    {
        match self.child(local) {
            Some(c) => Some(c.text.as_str()),
            None => None,
        }
    }

    /// The character data of every child with the given local name, in
    /// document order.
    pub fn child_texts(&self, local: &str) -> (r: Vec<String>)
        ensures
            r.deep_view() == texts_named(self@.children, local@),
    {
        let ghost cv = elems_view(self.children@);
        proof {
            lemma_elems_view_index(self.children@);
        }
        let mut out: Vec<String> = Vec::new();
        let mut i: usize = 0;
        proof {
            assert(self.children@.subrange(0, 0) =~= Seq::<Element>::empty());
            assert(elems_view(self.children@.subrange(0, 0)) =~= Seq::<SpecElem>::empty());
            assert(out.deep_view() =~~= texts_named(
                elems_view(self.children@.subrange(0, 0)),
                local@,
            ));
        }
        while i < self.children.len()
            invariant
                i <= self.children.len(),
                cv == elems_view(self.children@),
                cv.len() == self.children.len(),
                forall|k: int| 0 <= k < self.children.len() ==> cv[k] == #[trigger] self
                    .children@[k]@,
                out.deep_view() == texts_named(cv.take(i as int), local@),
            decreases self.children.len() - i,
        {
            let ln = local_name_x(self.children[i].name.as_str());
            proof {
                assert(cv[i as int] == self.children@[i as int]@);
                assert(cv[i as int].name == self.children@[i as int].name@);
                assert(cv[i as int].text == self.children@[i as int].text@);
                assert(ln@ == local_name(cv[i as int].name));
                assert(cv.take(i as int + 1) =~= cv.take(i as int).push(cv[i as int]));
                lemma_texts_named_snoc(cv.take(i as int), cv[i as int], local@);
            }
            if crate::util::str_eq(ln, local) {
                let t: String = self.children[i].text.clone();
                out.push(t);
                proof {
                    assert(out.deep_view() =~~= texts_named(cv.take(i as int), local@).push(
                        cv[i as int].text,
                    ));
                }
            }
            i += 1;
        }
        proof {
            assert(cv.take(i as int) =~= cv);
        }
        out
    }
}

impl Element {
    /// Prints this element as an XML fragment, exactly as [`print_elem`]
    /// describes.
    pub fn print(&self) -> (out: String)
        ensures
            out@ == print_elem(self@),
    {
        let mut out = String::new();
        append_elem(&mut out, self);
        proof {
            assert(Seq::<char>::empty() + print_elem(self@) =~= print_elem(self@));
        }
        out
    }
}


/// The number held by the first child with the given local name, when that
/// child exists and its character data is a decimal number that fits.
pub open spec fn child_u32(e: SpecElem, local: Seq<char>) -> Option<u32> {
    match child_text(e, local) {
        None => None,
        Some(t) => if crate::util::is_dec_string(t) && crate::util::dec_val(t) <= u32::MAX {
            Some(crate::util::dec_val(t) as u32)
        } else {
            None
        },
    }
}

/// Like [`child_u32`], for a child that may be absent: `None` for a present
/// child whose data is not a number, `Some(None)` for an absent child.
pub open spec fn child_opt_u32(e: SpecElem, local: Seq<char>) -> Option<Option<u32>> {
    match child_text(e, local) {
        None => Some(None),
        Some(t) => if crate::util::is_dec_string(t) && crate::util::dec_val(t) <= u32::MAX {
            Some(Some(crate::util::dec_val(t) as u32))
        } else {
            None
        },
    }
}

/// The truth value held by an optional child: `true` or `false` exactly.
pub open spec fn child_opt_bool(e: SpecElem, local: Seq<char>) -> Option<Option<bool>> {
    match child_text(e, local) {
        None => Some(None),
        Some(t) => if t == "true"@ {
            Some(Some(true))
        } else if t == "false"@ {
            Some(Some(false))
        } else {
            None
        },
    }
}

impl Element {
    /// The first child with the given local name, or a missing-element error.
    pub fn req_child<'a>(&'a self, local: &str) -> (r: Result<&'a Element, XmlError>)
        ensures
            match r {
                Ok(c) => find_named(self@.children, local@) == Some(c@),
                Err(_) => find_named(self@.children, local@) is None,
            },
    {
        match self.child(local) {
            Some(c) => Ok(c),
            None => Err(XmlError::MissingElement { name: local.to_owned() }),
        }
    }

    /// The character data of a required child.
    pub fn req_text(&self, local: &str) -> (r: Result<String, XmlError>)
        ensures
            match r {
                Ok(t) => child_text(self@, local@) == Some(t@),
                Err(_) => child_text(self@, local@) is None,
            },
    {
        match self.child_text(local) {
            Some(t) => Ok(t.to_owned()),
            None => Err(XmlError::MissingElement { name: local.to_owned() }),
        }
    }

    /// The character data of an optional child.
    pub fn opt_text(&self, local: &str) -> (r: Option<String>)
        ensures
            r.deep_view() == child_text(self@, local@),
    {
        match self.child_text(local) {
            Some(t) => Some(t.to_owned()),
            None => None,
        }
    }

    /// The number held by a required child.
    pub fn req_u32(&self, local: &str) -> (r: Result<u32, XmlError>)
        ensures
            match r {
                Ok(v) => child_u32(self@, local@) == Some(v),
                Err(_) => child_u32(self@, local@) is None,
            },
    {
        match self.child_text(local) {
            None => Err(XmlError::MissingElement { name: local.to_owned() }),
            Some(t) => match crate::util::parse_u32(t) {
                Some(v) => Ok(v),
                None => Err(XmlError::BadValue { name: local.to_owned() }),
            },
        }
    }

    /// The number held by an optional child; a present child must hold one.
    pub fn opt_u32(&self, local: &str) -> (r: Result<Option<u32>, XmlError>)
        ensures
            match r {
                Ok(v) => child_opt_u32(self@, local@) == Some(v),
                Err(_) => child_opt_u32(self@, local@) is None,
            },
    {
        match self.child_text(local) {
            None => Ok(None),
            Some(t) => match crate::util::parse_u32(t) {
                Some(v) => Ok(Some(v)),
                None => Err(XmlError::BadValue { name: local.to_owned() }),
            },
        }
    }

    /// The truth value held by an optional child; a present child must hold
    /// exactly `true` or `false`.
    pub fn opt_bool(&self, local: &str) -> (r: Result<Option<bool>, XmlError>)
        ensures
            match r {
                Ok(v) => child_opt_bool(self@, local@) == Some(v),
                Err(_) => child_opt_bool(self@, local@) is None,
            },
    {
        match self.child_text(local) {
            None => Ok(None),
            Some(t) => if crate::util::str_eq(t, "true") {
                Ok(Some(true))
            } else if crate::util::str_eq(t, "false") {
                Ok(Some(false))
            } else {
                Err(XmlError::BadValue { name: local.to_owned() })
            },
        }
    }
}

} // verus!
