//! JSON values as the bridge exchanges them: looking into them, and writing them out as
//! compact JSON text.
use vstd::prelude::*;
use crate::text;

verus! {

/// A JSON value. A number is kept as its JSON text; an object keeps its members in order.
pub enum JsonValue {
    Null,
    Bool(bool),
    Number(String),
    Str(String),
    Array(Vec<JsonValue>),
    Object(Vec<(String, JsonValue)>),
}

/// What a JSON value is: strings and numbers as their chars.
pub enum JsonView {
    Null,
    Bool(bool),
    Number(Seq<char>),
    Str(Seq<char>),
    Array(Seq<JsonView>),
    Object(Seq<(Seq<char>, JsonView)>),
}

pub open spec fn view_of(v: JsonValue) -> JsonView
    decreases v, 1int,
{
    match v {
        JsonValue::Null => JsonView::Null,
        JsonValue::Bool(b) => JsonView::Bool(b),
        JsonValue::Number(t) => JsonView::Number(t@),
        JsonValue::Str(s) => JsonView::Str(s@),
        JsonValue::Array(a) => JsonView::Array(view_items(a@)),
        JsonValue::Object(es) => JsonView::Object(view_members(es@)),
    }
}

pub open spec fn view_items(items: Seq<JsonValue>) -> Seq<JsonView>
    decreases items, 0int,
{
    if items.len() == 0 {
        seq![]
    } else {
        view_items(items.drop_last()).push(view_of(items.last()))
    }
}

pub open spec fn view_members(es: Seq<(String, JsonValue)>) -> Seq<(Seq<char>, JsonView)>
    decreases es, 0int,
{
    if es.len() == 0 {
        seq![]
    } else {
        view_members(es.drop_last()).push((es.last().0@, view_of(es.last().1)))
    }
}

impl View for JsonValue {
    type V = JsonView;

    open spec fn view(&self) -> JsonView {
        view_of(*self)
    }
}

/// The view of an array has one item per item, each the view of that item.
pub proof fn lemma_view_items(items: Seq<JsonValue>)
    ensures
        view_items(items).len() == items.len(),
        forall|i: int| 0 <= i < items.len() ==> #[trigger] view_items(items)[i] == view_of(items[i]),
    decreases items.len(),
{
    if items.len() > 0 {
        lemma_view_items(items.drop_last());
    }
}

/// The view of an object has one member per member, each with its key and the view of its value.
pub proof fn lemma_view_members(es: Seq<(String, JsonValue)>)
    ensures
        view_members(es).len() == es.len(),
        forall|i: int| 0 <= i < es.len() ==> #[trigger] view_members(es)[i] == (es[i].0@, view_of(es[i].1)),
    decreases es.len(),
{
    if es.len() > 0 {
        lemma_view_members(es.drop_last());
    }
}

/// The first member of an object with the given key.
pub open spec fn member(entries: Seq<(Seq<char>, JsonView)>, key: Seq<char>) -> Option<JsonView>
    decreases entries.len(),
{
    if entries.len() == 0 {
        None
    } else if entries[0].0 == key {
        Some(entries[0].1)
    } else {
        member(entries.drop_first(), key)
    }
}

/// `Value::get` with a key: the member of an object, or nothing for any other value.
pub open spec fn get_key(v: JsonView, key: Seq<char>) -> Option<JsonView> {
    match v {
        JsonView::Object(es) => member(es, key),
        _ => None,
    }
}

/// `Value::get` with an index: the element of an array, or nothing for any other value.
pub open spec fn get_index(v: JsonView, i: int) -> Option<JsonView> {
    match v {
        JsonView::Array(a) => if 0 <= i < a.len() {
            Some(a[i])
        } else {
            None
        },
        _ => None,
    }
}

/// `Value::as_str`.
pub open spec fn as_text(v: JsonView) -> Option<Seq<char>> {
    match v {
        JsonView::Str(s) => Some(s),
        _ => None,
    }
}

pub open spec fn then_key(o: Option<JsonView>, key: Seq<char>) -> Option<JsonView> {
    match o {
        Some(v) => get_key(v, key),
        None => None,
    }
}

pub open spec fn then_index(o: Option<JsonView>, i: int) -> Option<JsonView> {
    match o {
        Some(v) => get_index(v, i),
        None => None,
    }
}

pub open spec fn then_text(o: Option<JsonView>) -> Option<Seq<char>> {
    match o {
        Some(v) => as_text(v),
        None => None,
    }
}

pub open spec fn opt_view(o: Option<&JsonValue>) -> Option<JsonView> {
    match o {
        Some(v) => Some(v@),
        None => None,
    }
}

pub fn json_get<'a>(v: &'a JsonValue, key: &str) -> (r: Option<&'a JsonValue>)
    ensures
        opt_view(r) == get_key(v@, key@),
{
    match v {
        JsonValue::Object(es) => {
            let k = String::from_str(key);
            proof {
                lemma_view_members(es@);
            }
            let ghost ms = view_members(es@);
            let mut i: usize = 0;
            assert(ms.skip(0) =~= ms);
            while i < es.len()
                invariant
                    i <= es@.len(),
                    k@ == key@,
                    ms == view_members(es@),
                    ms.len() == es@.len(),
                    forall|j: int| 0 <= j < es@.len() ==> #[trigger] ms[j] == (es@[j].0@, view_of(es@[j].1)),
                    v@ == JsonView::Object(ms),
                    member(ms, key@) == member(ms.skip(i as int), key@),
                decreases es@.len() - i,
            {
                assert(ms.skip(i as int).drop_first() =~= ms.skip(i + 1));
                assert(ms.skip(i as int)[0] == ms[i as int]);
                if es[i].0 == k {
                    return Some(&es[i].1);
                }
                i = i + 1;
            }
            None
        },
        _ => None,
    }
}

pub fn json_at<'a>(v: &'a JsonValue, i: usize) -> (r: Option<&'a JsonValue>)
    ensures
        opt_view(r) == get_index(v@, i as int),
{
    match v {
        JsonValue::Array(a) => {
            proof {
                lemma_view_items(a@);
            }
            if i < a.len() {
                Some(&a[i])
            } else {
                None
            }
        },
        _ => None,
    }
}

pub fn json_as_str<'a>(v: &'a JsonValue) -> (r: Option<&'a str>)
    ensures
        r matches Some(x) ==> as_text(v@) == Some(x@),
        r is None ==> as_text(v@) is None,
{
    match v {
        JsonValue::Str(s) => Some(s.as_str()),
        _ => None,
    }
}

pub fn opt_get<'a>(o: Option<&'a JsonValue>, key: &str) -> (r: Option<&'a JsonValue>)
    ensures
        opt_view(r) == then_key(opt_view(o), key@),
{
    match o {
        Some(v) => json_get(v, key),
        None => None,
    }
}

pub fn opt_at<'a>(o: Option<&'a JsonValue>, i: usize) -> (r: Option<&'a JsonValue>)
    ensures
        opt_view(r) == then_index(opt_view(o), i as int),
{
    match o {
        Some(v) => json_at(v, i),
        None => None,
    }
}

pub fn opt_str<'a>(o: Option<&'a JsonValue>) -> (r: Option<&'a str>)
    ensures
        r matches Some(x) ==> then_text(opt_view(o)) == Some(x@),
        r is None ==> then_text(opt_view(o)) is None,
{
    match o {
        Some(v) => json_as_str(v),
        None => None,
    }
}

/// How `serde_json` writes one char of a string: quotes, backslashes and control chars
/// escaped, the rest as is.
pub open spec fn escape_char(c: char) -> Seq<char> {
    if c == '"' {
        seq!['\\', '"']
    } else if c == '\\' {
        seq!['\\', '\\']
    } else if c == '\u{8}' {
        seq!['\\', 'b']
    } else if c == '\t' {
        seq!['\\', 't']
    } else if c == '\n' {
        seq!['\\', 'n']
    } else if c == '\u{c}' {
        seq!['\\', 'f']
    } else if c == '\r' {
        seq!['\\', 'r']
    } else if (c as u32) < 0x20 {
        seq!['\\', 'u', '0', '0', hex_digit((c as u32) / 16), hex_digit((c as u32) % 16)]
    } else {
        seq![c]
    }
}

pub open spec fn hex_digit(d: u32) -> char {
    if d < 10 {
        (('0' as u32) + d) as char
    } else {
        (('a' as u32) + d - 10) as char
    }
}

pub open spec fn escape_text(s: Seq<char>) -> Seq<char>
    decreases s.len(),
{
    if s.len() == 0 {
        seq![]
    } else {
        escape_text(s.drop_last()) + escape_char(s.last())
    }
}

pub open spec fn quoted(s: Seq<char>) -> Seq<char> {
    seq!['"'] + escape_text(s) + seq!['"']
}

/// The compact JSON text of a value, as `serde_json` writes it.
pub open spec fn render(v: JsonView) -> Seq<char>
    decreases v, 1int,
{
    match v {
        JsonView::Null => seq!['n', 'u', 'l', 'l'],
        JsonView::Bool(b) => if b {
            seq!['t', 'r', 'u', 'e']
        } else {
            seq!['f', 'a', 'l', 's', 'e']
        },
        JsonView::Number(t) => t,
        JsonView::Str(s) => quoted(s),
        JsonView::Array(a) => seq!['['] + render_items(a) + seq![']'],
        JsonView::Object(es) => seq!['{'] + render_members(es) + seq!['}'],
    }
}

pub open spec fn render_items(items: Seq<JsonView>) -> Seq<char>
    decreases items, 0int,
{
    if items.len() == 0 {
        seq![]
    } else if items.len() == 1 {
        render(items[0])
    } else {
        render_items(items.drop_last()) + seq![','] + render(items.last())
    }
}

pub open spec fn render_members(es: Seq<(Seq<char>, JsonView)>) -> Seq<char>
    decreases es, 0int,
{
    if es.len() == 0 {
        seq![]
    } else if es.len() == 1 {
        quoted(es[0].0) + seq![':'] + render(es[0].1)
    } else {
        render_members(es.drop_last()) + seq![','] + quoted(es.last().0) + seq![':'] + render(
            es.last().1,
        )
    }
}

fn hex_char(d: u32) -> (r: char)
    requires
        d < 16,
    ensures
        r == hex_digit(d),
{
    if d < 10 {
        ((('0' as u32) + d) as u8) as char
    } else {
        ((('a' as u32) + d - 10) as u8) as char
    }
}

fn push_escaped_char(out: &mut String, c: char)
    ensures
        final(out)@ == old(out)@ + escape_char(c),
{
    let ghost start = out@;
    if c == '"' {
        text::push_char(out, '\\');
        text::push_char(out, '"');
    } else if c == '\\' {
        text::push_char(out, '\\');
        text::push_char(out, '\\');
    } else if c == '\u{8}' {
        text::push_char(out, '\\');
        text::push_char(out, 'b');
    } else if c == '\t' {
        text::push_char(out, '\\');
        text::push_char(out, 't');
    } else if c == '\n' {
        text::push_char(out, '\\');
        text::push_char(out, 'n');
    } else if c == '\u{c}' {
        text::push_char(out, '\\');
        text::push_char(out, 'f');
    } else if c == '\r' {
        text::push_char(out, '\\');
        text::push_char(out, 'r');
    } else if (c as u32) < 0x20 {
        text::push_char(out, '\\');
        text::push_char(out, 'u');
        text::push_char(out, '0');
        text::push_char(out, '0');
        text::push_char(out, hex_char((c as u32) / 16));
        text::push_char(out, hex_char((c as u32) % 16));
    } else {
        text::push_char(out, c);
    }
    assert(out@ =~= start + escape_char(c));
}

fn push_quoted(out: &mut String, s: &str)
    ensures
        final(out)@ == old(out)@ + quoted(s@),
{
    let ghost start = out@;
    let cs = text::chars_of(s);
    text::push_char(out, '"');
    let mut i: usize = 0;
    while i < cs.len()
        invariant
            i <= cs@.len(),
            cs@ == s@,
            out@ == start + seq!['"'] + escape_text(cs@.take(i as int)),
        decreases cs@.len() - i,
    {
        push_escaped_char(out, cs[i]);
        assert(cs@.take(i + 1).drop_last() =~= cs@.take(i as int));
        i = i + 1;
    }
    assert(cs@.take(cs@.len() as int) =~= cs@);
    text::push_char(out, '"');
    assert(out@ =~= start + quoted(s@));
}

/// Appends the compact JSON text of `v`.
pub fn write_json(out: &mut String, v: &JsonValue)
    ensures
        final(out)@ == old(out)@ + render(v@),
    decreases v,
{
    let ghost start = out@;
    match v {
        JsonValue::Null => {
            out.append("null");
            proof {
                reveal_strlit("null");
            }
            assert(out@ =~= start + render(v@));
        },
        JsonValue::Bool(b) => {
            if *b {
                out.append("true");
                proof {
                    reveal_strlit("true");
                }
            } else {
                out.append("false");
                proof {
                    reveal_strlit("false");
                }
            }
            assert(out@ =~= start + render(v@));
        },
        JsonValue::Number(t) => {
            out.append(t.as_str());
        },
        JsonValue::Str(s) => {
            push_quoted(out, s.as_str());
        },
        JsonValue::Array(a) => {
            proof {
                lemma_view_items(a@);
            }
            let ghost xs = view_items(a@);
            text::push_char(out, '[');
            let mut i: usize = 0;
            while i < a.len()
                invariant
                    i <= a@.len(),
                    *v == JsonValue::Array(*a),
                    xs == view_items(a@),
                    xs.len() == a@.len(),
                    forall|j: int| 0 <= j < a@.len() ==> #[trigger] xs[j] == view_of(a@[j]),
                    out@ == start + seq!['['] + render_items(xs.take(i as int)),
                decreases a@.len() - i,
            {
                let ghost before = out@;
                if i > 0 {
                    text::push_char(out, ',');
                }
                assert(decreases_to!(*v => a@[i as int])) by {
                    assert(decreases_to!(*v => (*v)->Array_0));
                    assert(decreases_to!(*a => a@));
                    assert(decreases_to!(a@ => a@[i as int]));
                }
                write_json(out, &a[i]);
                assert(xs.take(i + 1).drop_last() =~= xs.take(i as int));
                assert(xs.take(i + 1).last() == xs[i as int]);
                if i == 0 {
                    assert(xs.take(1)[0] == xs[0]);
                    assert(render_items(xs.take(0)) =~= Seq::<char>::empty());
                }
                assert(out@ =~= start + seq!['['] + render_items(xs.take(i + 1)));
                i = i + 1;
            }
            assert(xs.take(a@.len() as int) =~= xs);
            text::push_char(out, ']');
            assert(out@ =~= start + render(v@));
        },
        JsonValue::Object(es) => {
            proof {
                lemma_view_members(es@);
            }
            let ghost ms = view_members(es@);
            text::push_char(out, '{');
            let mut i: usize = 0;
            while i < es.len()
                invariant
                    i <= es@.len(),
                    *v == JsonValue::Object(*es),
                    ms == view_members(es@),
                    ms.len() == es@.len(),
                    forall|j: int| 0 <= j < es@.len() ==> #[trigger] ms[j] == (es@[j].0@, view_of(es@[j].1)),
                    out@ == start + seq!['{'] + render_members(ms.take(i as int)),
                decreases es@.len() - i,
            {
                if i > 0 {
                    text::push_char(out, ',');
                }
                push_quoted(out, es[i].0.as_str());
                text::push_char(out, ':');
                assert(decreases_to!(*v => es@[i as int].1)) by {
                    assert(decreases_to!(*v => (*v)->Object_0));
                    assert(decreases_to!(*es => es@));
                    assert(decreases_to!(es@ => es@[i as int]));
                    assert(decreases_to!(es@[i as int] => es@[i as int].1));
                }
                write_json(out, &es[i].1);
                assert(ms.take(i + 1).drop_last() =~= ms.take(i as int));
                assert(ms.take(i + 1).last() == ms[i as int]);
                if i == 0 {
                    assert(ms.take(1)[0] == ms[0]);
                    assert(render_members(ms.take(0)) =~= Seq::<char>::empty());
                }
                assert(out@ =~= start + seq!['{'] + render_members(ms.take(i + 1)));
                i = i + 1;
            }
            assert(ms.take(es@.len() as int) =~= ms);
            text::push_char(out, '}');
            assert(out@ =~= start + render(v@));
        },
    }
}

/// The compact JSON text of `v`.
pub fn to_json_text(v: &JsonValue) -> (r: String)
    ensures
        r@ == render(v@),
{
    let mut out = String::new();
    write_json(&mut out, v);
    assert(out@ =~= render(v@));
    out
}

} // verus!
