//! Attributes written as an attribute string, and what holds of writing
//! and reading them.

use crate::attribute::{attribute_views, AttributeView, OwnedAttribute};
use crate::attribute_parser::{
    equals_ahead, is_attribute_name, lemma_parsed_keys_are_names, lemma_step_holds_names,
    parse_attributes, scan_emit, scan_holds_names, scan_run, scan_start, scan_step,
    AttributeParseErrorView, Scan, ScanState,
};
use crate::text::{is_blank, unicode_whitespace};
use vstd::prelude::*;
use vstd::string::StringExecFns;

verus! {

/// An attribute as it is written in an attribute string: the bare key, or
/// the key, `=` and the value between double quotes.
pub open spec fn attribute_text(a: AttributeView) -> Seq<char> {
    match a.value {
        Some(v) => a.key + seq!['=', '"'] + v + seq!['"'],
        None => a.key,
    }
}

/// A list of attributes as it is written: each attribute, one space
/// between two of them.
pub open spec fn attributes_text(attributes: Seq<AttributeView>) -> Seq<char>
    decreases attributes.len(),
{
    if attributes.len() == 0 {
        Seq::empty()
    } else if attributes.len() == 1 {
        attribute_text(attributes[0])
    } else {
        attribute_text(attributes[0]) + seq![' '] + attributes_text(attributes.drop_first())
    }
}

/// A value that can stand between double quotes: it holds none.
pub open spec fn is_quotable_value(value: Seq<char>) -> bool {
    forall|i: int| 0 <= i < value.len() ==> #[trigger] value[i] != '"'
}

/// Whether some character of the key is not whitespace.
pub open spec fn has_visible_char(key: Seq<char>) -> bool {
    exists|i: int| 0 <= i < key.len() && !unicode_whitespace(#[trigger] key[i])
}

/// The attributes that are read back as they were written: every key is an
/// attribute name, every value can be quoted, and a key with a value that
/// follows a boolean attribute has a character that is not whitespace
/// (else the `=` behind it would be taken for the boolean attribute's).
pub open spec fn can_be_written(attributes: Seq<AttributeView>) -> bool {
    &&& forall|i: int|
        0 <= i < attributes.len() ==> is_attribute_name((#[trigger] attributes[i]).key)
    &&& forall|i: int|
        0 <= i < attributes.len() && (#[trigger] attributes[i]).value is Some
            ==> is_quotable_value(attributes[i].value->0)
    &&& forall|i: int|
        0 < i < attributes.len() && attributes[i - 1].value is None && (
        #[trigger] attributes[i]).value is Some ==> has_visible_char(attributes[i].key)
}

/// Writes an attribute list as `attributes_text` states it.
pub fn write_attributes(attributes: &Vec<OwnedAttribute>) -> (text: String)
    ensures
        text@ == attributes_text(attribute_views(attributes@)),
{
    let mut text = String::new();
    let mut i: usize = attributes.len();
    let ghost views = attribute_views(attributes@);
    assert(views.skip(i as int) =~= Seq::empty());
    while i > 0
        invariant
            i <= attributes.len(),
            views == attribute_views(attributes@),
            text@ == attributes_text(views.skip(i as int)),
        decreases i,
    {
        i -= 1;
        let a = &attributes[i];
        let mut piece = String::new();
        piece.append(a.key.as_str());
        match &a.value {
            Some(v) => {
                piece.push('=');
                piece.push('"');
                piece.append(v.as_str());
                piece.push('"');
            },
            None => {},
        }
        proof {
            assert(views[i as int] == a@);
            assert(piece@ =~= attribute_text(views[i as int]));
            assert(views.skip(i as int).drop_first() =~= views.skip(i + 1));
            assert(views.skip(i as int)[0] == views[i as int]);
        }
        if i + 1 < attributes.len() {
            piece.push(' ');
            piece.append(text.as_str());
        }
        text = piece;
    }
    assert(views.skip(0) =~= views);
    text
}

proof fn lemma_no_equals_until(s: Seq<char>, from: int, to: int)
    requires
        0 <= from <= to,
        forall|i: int| from <= i < to && i < s.len() ==> s[i] != '=',
        !equals_ahead(s, to),
    ensures
        !equals_ahead(s, from),
    decreases to - from,
{
    if from < to && from < s.len() {
        lemma_no_equals_until(s, from + 1, to);
    }
}

proof fn lemma_text_starts_with_key(attributes: Seq<AttributeView>)
    requires
        attributes.len() > 0,
    ensures
        attributes_text(attributes).len() >= attributes[0].key.len(),
        attributes_text(attributes).subrange(0, attributes[0].key.len() as int)
            == attributes[0].key,
        attributes[0].value is None && attributes.len() == 1 ==> attributes_text(attributes)
            == attributes[0].key,
        attributes[0].value is None && attributes.len() > 1 ==> attributes_text(attributes)
            == attributes[0].key + seq![' '] + attributes_text(attributes.drop_first()),
        attributes[0].value is Some && attributes.len() == 1 ==> attributes_text(attributes)
            == attributes[0].key + seq!['=', '"'] + attributes[0].value->0 + seq!['"'],
        attributes[0].value is Some && attributes.len() > 1 ==> attributes_text(attributes)
            == attributes[0].key + seq!['=', '"'] + attributes[0].value->0 + seq!['"'] + seq![' ']
            + attributes_text(attributes.drop_first()),
{
    let k = attributes[0].key;
    let t = attributes_text(attributes);
    assert(t.subrange(0, k.len() as int) =~= k);
}

/// Behind a boolean attribute and its blank, no `=` is ahead when what
/// follows is a written list whose first key, if it has a value, has a
/// character that is not whitespace.
proof fn lemma_no_equals_ahead_of_written(s: Seq<char>, p: int, rest: Seq<AttributeView>)
    requires
        0 <= p <= s.len(),
        s.subrange(p, s.len() as int) == attributes_text(rest),
        can_be_written(rest),
        rest.len() > 0 && rest[0].value is Some ==> has_visible_char(rest[0].key),
    ensures
        !equals_ahead(s, p),
    decreases rest.len(),
{
    if rest.len() == 0 {
        assert(p == s.len()) by {
            assert(s.subrange(p, s.len() as int).len() == 0);
        }
    } else {
        let k = rest[0].key;
        let t = attributes_text(rest);
        lemma_text_starts_with_key(rest);
        assert(is_attribute_name(k));
        assert(t.len() == s.len() - p);
        assert forall|i: int| p <= i < p + k.len() implies s[i] == k[i - p] by {
            assert(s[i] == s.subrange(p, s.len() as int)[i - p]);
            assert(t.subrange(0, k.len() as int)[i - p] == t[i - p]);
        }
        if has_visible_char(k) {
            let j = choose|j: int| 0 <= j < k.len() && !unicode_whitespace(#[trigger] k[j]);
            assert(s[p + j] == k[j]);
            assert(!equals_ahead(s, p + j));
            lemma_no_equals_until(s, p, p + j);
        } else {
            assert(rest[0].value is None);
            if rest.len() == 1 {
                assert(p + k.len() == s.len());
                assert(!equals_ahead(s, p + k.len()));
                lemma_no_equals_until(s, p, p + k.len());
            } else {
                let tail = rest.drop_first();
                let q = p + k.len() + 1;
                assert(t == k + seq![' '] + attributes_text(tail));
                assert(s[q - 1] == ' ') by {
                    assert(s[q - 1] == s.subrange(p, s.len() as int)[k.len() as int]);
                }
                assert(s.subrange(q, s.len() as int) =~= attributes_text(tail)) by {
                    assert(s.subrange(q, s.len() as int) =~= s.subrange(p, s.len() as int).subrange(
                        k.len() as int + 1,
                        t.len() as int,
                    ));
                    assert(t.subrange(k.len() as int + 1, t.len() as int) =~= attributes_text(tail));
                }
                lemma_written_tail(rest);
                assert(tail[0] == rest[1]);
                lemma_no_equals_ahead_of_written(s, q, tail);
                lemma_no_equals_until(s, p, q);
            }
        }
    }
}

proof fn lemma_written_tail(attributes: Seq<AttributeView>)
    requires
        attributes.len() > 0,
        can_be_written(attributes),
    ensures
        can_be_written(attributes.drop_first()),
{
    let tail = attributes.drop_first();
    assert forall|i: int| 0 <= i < tail.len() implies is_attribute_name(
        (#[trigger] tail[i]).key,
    ) by {
        assert(tail[i] == attributes[i + 1]);
    }
    assert forall|i: int| 0 <= i < tail.len() && (#[trigger] tail[i]).value is Some implies 
        is_quotable_value(tail[i].value->0) by {
        assert(tail[i] == attributes[i + 1]);
    }
    assert forall|i: int|
        0 < i < tail.len() && tail[i - 1].value is None && (#[trigger] tail[i]).value is Some
        implies has_visible_char(tail[i].key) by {
        assert(tail[i] == attributes[i + 1]);
        assert(tail[i - 1] == attributes[i]);
    }
}

proof fn lemma_scan_name(m: Scan, s: Seq<char>, pos: int, n: int)
    requires
        m.state == ScanState::InName,
        0 <= pos,
        0 <= n,
        pos + n <= s.len(),
        forall|i: int| pos <= i < pos + n ==> !is_blank(s[i]) && s[i] != '=',
    ensures
        scan_run(m, s, pos) == scan_run(
            Scan { key: m.key + s.subrange(pos, pos + n), ..m },
            s,
            pos + n,
        ),
    decreases n,
{
    if n == 0 {
        assert(m.key + s.subrange(pos, pos) =~= m.key);
    } else {
        let next = Scan { key: m.key.push(s[pos]), ..m };
        assert(scan_step(m, s, pos) == Ok::<Scan, AttributeParseErrorView>(next));
        lemma_scan_name(next, s, pos + 1, n - 1);
        assert(next.key + s.subrange(pos + 1, pos + n) =~= m.key + s.subrange(pos, pos + n));
    }
}

proof fn lemma_scan_quoted(m: Scan, s: Seq<char>, pos: int, n: int)
    requires
        m.state == ScanState::InQuotedValue,
        0 <= pos,
        0 <= n,
        pos + n <= s.len(),
        forall|i: int| pos <= i < pos + n ==> s[i] != m.quote,
    ensures
        scan_run(m, s, pos) == scan_run(
            Scan { value: m.value + s.subrange(pos, pos + n), ..m },
            s,
            pos + n,
        ),
    decreases n,
{
    if n == 0 {
        assert(m.value + s.subrange(pos, pos) =~= m.value);
    } else {
        let next = Scan { value: m.value.push(s[pos]), ..m };
        assert(scan_step(m, s, pos) == Ok::<Scan, AttributeParseErrorView>(next));
        lemma_scan_quoted(next, s, pos + 1, n - 1);
        assert(next.value + s.subrange(pos + 1, pos + n) =~= m.value + s.subrange(pos, pos + n));
    }
}

/// Reading a key: from between attributes, over the characters of an
/// attribute name, to the state inside that name.
proof fn lemma_scan_key(m: Scan, s: Seq<char>, p: int, k: Seq<char>)
    requires
        m.state == ScanState::BeforeAttribute,
        m.key.len() == 0,
        is_attribute_name(k),
        0 <= p,
        p + k.len() <= s.len(),
        s.subrange(p, p + k.len()) == k,
    ensures
        scan_run(m, s, p) == scan_run(Scan { state: ScanState::InName, key: k, ..m }, s, p + k.len()),
{
    assert forall|i: int| 0 <= i < k.len() implies s[p + i] == #[trigger] k[i] by {
        assert(s.subrange(p, p + k.len())[i] == s[p + i]);
    }
    assert(m.key =~= Seq::empty());
    let m1 = Scan { state: ScanState::InName, key: m.key.push(s[p]), ..m };
    assert(s[p] == k[0]);
    assert(scan_step(m, s, p) == Ok::<Scan, AttributeParseErrorView>(m1));
    assert forall|i: int| p + 1 <= i < p + k.len() implies !is_blank(s[i]) && s[i] != '=' by {
        assert(s[i] == k[i - p]);
    }
    lemma_scan_name(m1, s, p + 1, k.len() - 1);
    assert(m1.key + s.subrange(p + 1, p + k.len()) =~= k);
}

/// Reading a value: from inside a name, over `="`, the characters of a
/// value without a double quote, and the closing `"`, to the state
/// between attributes with one more attribute finished.
proof fn lemma_scan_value(m: Scan, s: Seq<char>, q: int, v: Seq<char>)
    requires
        m.state == ScanState::InName,
        is_quotable_value(v),
        0 <= q,
        q + v.len() + 3 <= s.len(),
        s[q] == '=',
        s[q + 1] == '"',
        s.subrange(q + 2, q + 2 + v.len()) == v,
        s[q + 2 + v.len()] == '"',
    ensures
        scan_run(m, s, q) == scan_run(
            Scan {
                state: ScanState::BeforeAttribute,
                done: m.done.push(AttributeView { key: m.key, value: Some(v) }),
                key: Seq::empty(),
                value: Seq::empty(),
                quote: '"',
                quote_at: q + 1,
            },
            s,
            q + v.len() + 3,
        ),
{
    let m3 = Scan { state: ScanState::AfterEquals, value: Seq::empty(), ..m };
    assert(scan_step(m, s, q) == Ok::<Scan, AttributeParseErrorView>(m3));
    let m4 = Scan { state: ScanState::InQuotedValue, quote: '"', quote_at: q + 1, ..m3 };
    assert(scan_step(m3, s, q + 1) == Ok::<Scan, AttributeParseErrorView>(m4));
    assert forall|i: int| q + 2 <= i < q + 2 + v.len() implies s[i] != m4.quote by {
        assert(s.subrange(q + 2, q + 2 + v.len())[i - q - 2] == s[i]);
        assert(s[i] == v[i - q - 2]);
    }
    lemma_scan_quoted(m4, s, q + 2, v.len() as int);
    let m5 = Scan { value: m4.value + s.subrange(q + 2, q + 2 + v.len()), ..m4 };
    assert(m5.value =~= v);
    let r = q + 2 + v.len();
    let m6 = scan_emit(m5, Some(m5.value));
    assert(scan_step(m5, s, r) == Ok::<Scan, AttributeParseErrorView>(m6));
    assert(scan_run(m, s, q) == scan_run(m3, s, q + 1));
    assert(scan_run(m3, s, q + 1) == scan_run(m4, s, q + 2));
    assert(scan_run(m4, s, q + 2) == scan_run(m5, s, r));
    assert(scan_run(m5, s, r) == scan_run(m6, s, r + 1));
    assert(m6 == Scan {
        state: ScanState::BeforeAttribute,
        done: m.done.push(AttributeView { key: m.key, value: Some(v) }),
        key: Seq::empty(),
        value: Seq::empty(),
        quote: '"',
        quote_at: q + 1,
    });
}

/// The text of a list that begins with a boolean attribute.
proof fn lemma_text_of_boolean_first(attributes: Seq<AttributeView>)
    requires
        attributes.len() > 0,
        attributes[0].value is None,
    ensures
        attributes.len() == 1 ==> attributes_text(attributes) == attributes[0].key,
        attributes.len() > 1 ==> attributes_text(attributes) == attributes[0].key + seq![' ']
            + attributes_text(attributes.drop_first()),
{
}

/// The text of a list that begins with an attribute that has a value.
proof fn lemma_text_of_valued_first(attributes: Seq<AttributeView>)
    requires
        attributes.len() > 0,
        attributes[0].value is Some,
    ensures
        attributes.len() == 1 ==> attributes_text(attributes) == attribute_text(attributes[0]),
        attributes.len() > 1 ==> attributes_text(attributes) == attribute_text(attributes[0])
            + seq![' '] + attributes_text(attributes.drop_first()),
        attribute_text(attributes[0]) == attributes[0].key + seq!['=', '"']
            + attributes[0].value->0 + seq!['"'],
        attribute_text(attributes[0]).len() == attributes[0].key.len() + attributes[0].value->0.len()
            + 3,
{
}

proof fn lemma_scan_written_boolean(m: Scan, s: Seq<char>, p: int, attributes: Seq<AttributeView>)
    requires
        m.state == ScanState::BeforeAttribute,
        m.key.len() == 0,
        0 <= p <= s.len(),
        s.subrange(p, s.len() as int) == attributes_text(attributes),
        can_be_written(attributes),
        attributes.len() > 0,
        attributes[0].value is None,
    ensures
        scan_run(m, s, p) == Ok::<Seq<AttributeView>, AttributeParseErrorView>(
            m.done + attributes,
        ),
    decreases attributes.len(), 0int,
{
    let t = attributes_text(attributes);
    let a = attributes[0];
    let k = a.key;
    let tail = attributes.drop_first();
    assert(t.len() == s.len() - p) by {
        assert(s.subrange(p, s.len() as int).len() == s.len() - p);
    }
    lemma_text_of_boolean_first(attributes);
    lemma_written_tail(attributes);
    assert(is_attribute_name(k));
    assert(s.subrange(p, p + k.len()) =~= k) by {
        assert(s.subrange(p, p + k.len()) =~= s.subrange(p, s.len() as int).subrange(
            0,
            k.len() as int,
        ));
        assert(t.subrange(0, k.len() as int) =~= k);
    }
    lemma_scan_key(m, s, p, k);
    let m2 = Scan { state: ScanState::InName, key: k, ..m };
    let q = p + k.len();
    if attributes.len() == 1 {
        assert(q == s.len());
        assert(m.done + attributes =~= m.done.push(a));
    } else {
        assert(t == k + seq![' '] + attributes_text(tail));
        assert(s[q] == ' ') by {
            assert(s.subrange(p, s.len() as int)[k.len() as int] == s[q]);
            assert(t[k.len() as int] == ' ');
        }
        assert(s.subrange(q + 1, s.len() as int) =~= attributes_text(tail)) by {
            assert(s.subrange(q + 1, s.len() as int) =~= s.subrange(p, s.len() as int).subrange(
                k.len() as int + 1,
                t.len() as int,
            ));
            assert(t.subrange(k.len() as int + 1, t.len() as int) =~= attributes_text(tail));
        }
        assert(tail[0] == attributes[1]);
        lemma_no_equals_ahead_of_written(s, q + 1, tail);
        let m3 = scan_emit(m2, None);
        assert(scan_step(m2, s, q) == Ok::<Scan, AttributeParseErrorView>(m3));
        lemma_scan_written(m3, s, q + 1, tail);
        assert(m3.done + tail =~= m.done + attributes);
    }
}

proof fn lemma_scan_written_valued(m: Scan, s: Seq<char>, p: int, attributes: Seq<AttributeView>)
    requires
        m.state == ScanState::BeforeAttribute,
        m.key.len() == 0,
        0 <= p <= s.len(),
        s.subrange(p, s.len() as int) == attributes_text(attributes),
        can_be_written(attributes),
        attributes.len() > 0,
        attributes[0].value is Some,
    ensures
        scan_run(m, s, p) == Ok::<Seq<AttributeView>, AttributeParseErrorView>(
            m.done + attributes,
        ),
    decreases attributes.len(), 0int,
{
    let t = attributes_text(attributes);
    let a = attributes[0];
    let k = a.key;
    let v = a.value->0;
    let tail = attributes.drop_first();
    let head = attribute_text(a);
    let rest = s.subrange(p, s.len() as int);
    assert(t.len() == s.len() - p) by {
        assert(rest.len() == s.len() - p);
    }
    lemma_text_of_valued_first(attributes);
    lemma_written_tail(attributes);
    assert(is_attribute_name(k));
    assert(is_quotable_value(v));
    assert(t.subrange(0, head.len() as int) =~= head);
    assert forall|i: int| 0 <= i < head.len() implies s[p + i] == #[trigger] head[i] by {
        assert(rest[i] == s[p + i]);
        assert(t.subrange(0, head.len() as int)[i] == t[i]);
    }
    assert(s.subrange(p, p + k.len()) =~= k) by {
        assert forall|i: int| 0 <= i < k.len() implies s[p + i] == k[i] by {
            assert(head[i] == k[i]);
        }
    }
    lemma_scan_key(m, s, p, k);
    let m2 = Scan { state: ScanState::InName, key: k, ..m };
    let q = p + k.len();
    assert(s[q] == '=') by {
        assert(head[k.len() as int] == '=');
    }
    assert(s[q + 1] == '"') by {
        assert(head[k.len() as int + 1] == '"');
    }
    assert(s.subrange(q + 2, q + 2 + v.len()) =~= v) by {
        assert forall|i: int| 0 <= i < v.len() implies s[q + 2 + i] == v[i] by {
            assert(head[k.len() as int + 2 + i] == v[i]);
        }
    }
    assert(s[q + 2 + v.len()] == '"') by {
        assert(head[k.len() as int + 2 + v.len()] == '"');
    }
    lemma_scan_value(m2, s, q, v);
    let m6 = Scan {
        state: ScanState::BeforeAttribute,
        done: m.done.push(a),
        key: Seq::empty(),
        value: Seq::empty(),
        quote: '"',
        quote_at: q + 1,
    };
    let r = q + v.len() + 3;
    assert(scan_run(m, s, p) == scan_run(m6, s, r));
    if attributes.len() == 1 {
        assert(r == s.len());
        assert(m.done + attributes =~= m.done.push(a));
    } else {
        assert(t == head + seq![' '] + attributes_text(tail));
        assert(s[r] == ' ') by {
            assert(rest[head.len() as int] == s[r]);
            assert(t[head.len() as int] == ' ');
        }
        assert(s.subrange(r + 1, s.len() as int) =~= attributes_text(tail)) by {
            assert(s.subrange(r + 1, s.len() as int) =~= rest.subrange(
                head.len() as int + 1,
                t.len() as int,
            ));
            assert(t.subrange(head.len() as int + 1, t.len() as int) =~= attributes_text(tail));
        }
        assert(scan_step(m6, s, r) == Ok::<Scan, AttributeParseErrorView>(m6));
        lemma_scan_written(m6, s, r + 1, tail);
        assert(m6.done + tail =~= m.done + attributes);
    }
}

proof fn lemma_scan_written(m: Scan, s: Seq<char>, p: int, attributes: Seq<AttributeView>)
    requires
        m.state == ScanState::BeforeAttribute,
        m.key.len() == 0,
        0 <= p <= s.len(),
        s.subrange(p, s.len() as int) == attributes_text(attributes),
        can_be_written(attributes),
    ensures
        scan_run(m, s, p) == Ok::<Seq<AttributeView>, AttributeParseErrorView>(
            m.done + attributes,
        ),
    decreases attributes.len(), 1int,
{
    if attributes.len() == 0 {
        assert(p == s.len()) by {
            assert(s.subrange(p, s.len() as int).len() == s.len() - p);
        }
        assert(m.done + attributes =~= m.done);
    } else if attributes[0].value is None {
        lemma_scan_written_boolean(m, s, p, attributes);
    } else {
        lemma_scan_written_valued(m, s, p, attributes);
    }
}

/// Whether every key with a value that follows a boolean attribute has a
/// character that is not whitespace.
pub open spec fn values_stay_apart(attributes: Seq<AttributeView>) -> bool {
    forall|i: int|
        0 < i < attributes.len() && attributes[i - 1].value is None && (
        #[trigger] attributes[i]).value is Some ==> has_visible_char(attributes[i].key)
}

/// Whether the attribute finished last is a boolean one.
pub open spec fn after_boolean(m: Scan) -> bool {
    m.done.len() > 0 && m.done.last().value is None
}

/// What keeps a value apart from a boolean attribute before it, at each
/// state of the scanner that is about to read the character at `pos`:
/// behind a boolean attribute no `=` is ahead, until the next key has a
/// character that is not whitespace.
pub open spec fn scan_keeps_apart(m: Scan, s: Seq<char>, pos: int) -> bool {
    &&& values_stay_apart(m.done)
    &&& after_boolean(m) ==> match m.state {
        ScanState::BeforeAttribute => !equals_ahead(s, pos),
        ScanState::InName => has_visible_char(m.key) || !equals_ahead(s, pos),
        _ => has_visible_char(m.key),
    }
}

proof fn lemma_visible_after_push(key: Seq<char>, c: char)
    ensures
        has_visible_char(key) ==> has_visible_char(key.push(c)),
        !unicode_whitespace(c) ==> has_visible_char(key.push(c)),
{
    let longer = key.push(c);
    if has_visible_char(key) {
        let j = choose|j: int| 0 <= j < key.len() && !unicode_whitespace(#[trigger] key[j]);
        assert(longer[j] == key[j]);
    }
    if !unicode_whitespace(c) {
        assert(longer[key.len() as int] == c);
    }
}

proof fn lemma_apart_after_push(done: Seq<AttributeView>, a: AttributeView)
    requires
        values_stay_apart(done),
        done.len() > 0 && done.last().value is None && a.value is Some ==> has_visible_char(a.key),
    ensures
        values_stay_apart(done.push(a)),
{
    let longer = done.push(a);
    assert forall|i: int|
        0 < i < longer.len() && longer[i - 1].value is None && (#[trigger] longer[i]).value is Some
        implies has_visible_char(longer[i].key) by {
        if i < done.len() {
            assert(longer[i] == done[i]);
            assert(longer[i - 1] == done[i - 1]);
        } else {
            assert(longer[i] == a);
            assert(longer[i - 1] == done.last());
        }
    }
}

proof fn lemma_step_keeps_apart(m: Scan, s: Seq<char>, pos: int)
    requires
        scan_holds_names(m),
        scan_keeps_apart(m, s, pos),
        0 <= pos < s.len(),
        scan_step(m, s, pos) is Ok,
    ensures
        scan_keeps_apart(scan_step(m, s, pos)->Ok_0, s, pos + 1),
{
    let c = s[pos];
    let next = scan_step(m, s, pos)->Ok_0;
    lemma_visible_after_push(m.key, c);
    match m.state {
        ScanState::BeforeAttribute => {
            if !is_blank(c) {
                assert(m.key =~= Seq::empty());
                assert(next.key == m.key.push(c));
            }
        },
        ScanState::InName => {
            if is_blank(c) {
                if !equals_ahead(s, pos + 1) {
                    lemma_apart_after_push(m.done, AttributeView { key: m.key, value: None });
                }
            }
        },
        ScanState::BeforeEquals => {},
        ScanState::AfterEquals => {},
        ScanState::InQuotedValue => {
            if c == m.quote {
                lemma_apart_after_push(m.done, AttributeView { key: m.key, value: Some(m.value) });
            }
        },
        ScanState::InUnquotedValue => {
            if is_blank(c) {
                lemma_apart_after_push(m.done, AttributeView { key: m.key, value: Some(m.value) });
            }
        },
    }
}

proof fn lemma_run_keeps_apart(m: Scan, s: Seq<char>, pos: int)
    requires
        scan_holds_names(m),
        scan_keeps_apart(m, s, pos),
        0 <= pos,
        scan_run(m, s, pos) is Ok,
    ensures
        values_stay_apart(scan_run(m, s, pos)->Ok_0),
    decreases s.len() - pos,
{
    if pos >= s.len() {
        match m.state {
            ScanState::BeforeAttribute => {},
            ScanState::InName | ScanState::BeforeEquals => {
                lemma_apart_after_push(m.done, AttributeView { key: m.key, value: None });
            },
            ScanState::AfterEquals | ScanState::InUnquotedValue => {
                lemma_apart_after_push(m.done, AttributeView { key: m.key, value: Some(m.value) });
            },
            ScanState::InQuotedValue => {},
        }
    } else {
        lemma_step_holds_names(m, s, pos);
        lemma_step_keeps_apart(m, s, pos);
        lemma_run_keeps_apart(scan_step(m, s, pos)->Ok_0, s, pos + 1);
    }
}

/// What the parser yields can be written, if no value holds a double
/// quote.
pub proof fn lemma_parsed_can_be_written(s: Seq<char>)
    requires
        parse_attributes(s) is Ok,
        forall|i: int|
            0 <= i < parse_attributes(s)->Ok_0.len() && (
            #[trigger] parse_attributes(s)->Ok_0[i]).value is Some ==> is_quotable_value(
                parse_attributes(s)->Ok_0[i].value->0,
            ),
    ensures
        can_be_written(parse_attributes(s)->Ok_0),
{
    lemma_parsed_keys_are_names(s);
    lemma_run_keeps_apart(scan_start(), s, 0);
}

/// Reading, writing and reading again: the attributes read from a string
/// are read again from their text, in the same order and with repeated
/// keys kept, if no value holds a double quote.
pub proof fn lemma_parse_round_trip(s: Seq<char>)
    requires
        parse_attributes(s) is Ok,
        forall|i: int|
            0 <= i < parse_attributes(s)->Ok_0.len() && (
            #[trigger] parse_attributes(s)->Ok_0[i]).value is Some ==> is_quotable_value(
                parse_attributes(s)->Ok_0[i].value->0,
            ),
    ensures
        parse_attributes(attributes_text(parse_attributes(s)->Ok_0)) == parse_attributes(s),
{
    lemma_parsed_can_be_written(s);
    lemma_parse_written_attributes(parse_attributes(s)->Ok_0);
}

/// Writing and reading back: a list of attributes that can be written is
/// what the parser reads from its text, in the same order and with
/// repeated keys kept.
pub proof fn lemma_parse_written_attributes(attributes: Seq<AttributeView>)
    requires
        can_be_written(attributes),
    ensures
        parse_attributes(attributes_text(attributes)) == Ok::<
            Seq<AttributeView>,
            AttributeParseErrorView,
        >(attributes),
{
    let s = attributes_text(attributes);
    assert(s.subrange(0, s.len() as int) =~= s);
    lemma_scan_written(scan_start(), s, 0, attributes);
    assert(scan_start().done + attributes =~= attributes);
}

} // verus!
