//! Rendering a value as a populated command-line invocation: the command
//! name followed by `--{key} {value}` for each field of the value's JSON
//! form.
use vstd::prelude::*;

use crate::text::{chars_of, name_views, push_str};

verus! {

/// A JSON value, as the invocation renderer reads it. A number carries its
/// JSON text; an object carries its fields in order and its compact JSON
/// text.
#[derive(Debug)]
pub enum JsonValue {
    Null,
    Bool(bool),
    Number(String),
    String(String),
    Array(Vec<JsonValue>),
    Object(Vec<(String, JsonValue)>, String),
}

/// Characters that a shell word may hold without quoting.
pub open spec fn is_plain_char(c: char) -> bool {
    ('a' <= c && c <= 'z') || ('A' <= c && c <= 'Z') || ('0' <= c && c <= '9') || c == '-' || c
        == '_' || c == '.' || c == '/' || c == ':'
}

/// `t` with every `'` replaced by `'\''`.
pub open spec fn quotes_escaped(t: Seq<char>) -> Seq<char>
    decreases t.len(),
{
    if t.len() == 0 {
        Seq::empty()
    } else {
        let front = quotes_escaped(t.drop_last());
        if t.last() == '\'' {
            front + seq!['\'', '\\', '\'', '\'']
        } else {
            front.push(t.last())
        }
    }
}

/// `t` as one shell word: itself when every character is plain, else in
/// single quotes with its own single quotes escaped.
pub open spec fn shell_escaped(t: Seq<char>) -> Seq<char> {
    if forall|i: int| 0 <= i < t.len() ==> #[trigger] is_plain_char(t[i]) {
        t
    } else {
        seq!['\''] + quotes_escaped(t) + seq!['\'']
    }
}

/// The invocation words for field `key` holding `v`: none for null, false
/// and the empty string; `--key` for true; `--key value` for a string
/// (shell-escaped), a number or an object (its JSON text); the words of
/// each item, in order, for an array.
pub open spec fn field_words(key: Seq<char>, v: JsonValue) -> Seq<Seq<char>>
    decreases v, 0int,
{
    match v {
        JsonValue::Null => Seq::empty(),
        JsonValue::Bool(b) => if b {
            seq!["--"@ + key]
        } else {
            Seq::empty()
        },
        JsonValue::String(t) => if t@.len() == 0 {
            Seq::empty()
        } else {
            seq!["--"@ + key + " "@ + shell_escaped(t@)]
        },
        JsonValue::Number(n) => seq!["--"@ + key + " "@ + n@],
        JsonValue::Array(items) => items_words(key, items@),
        JsonValue::Object(_, text) => seq!["--"@ + key + " "@ + text@],
    }
}

/// The invocation words for each item of an array under field `key`.
pub open spec fn items_words(key: Seq<char>, items: Seq<JsonValue>) -> Seq<Seq<char>>
    decreases items, 1int,
{
    if items.len() == 0 {
        Seq::empty()
    } else {
        items_words(key, items.subrange(0, items.len() - 1)) + field_words(
            key,
            items[items.len() - 1],
        )
    }
}

/// The invocation words for the fields of an object, in order.
pub open spec fn fields_words(fields: Seq<(String, JsonValue)>) -> Seq<Seq<char>>
    decreases fields.len(),
{
    if fields.len() == 0 {
        Seq::empty()
    } else {
        fields_words(fields.drop_last()) + field_words(fields.last().0@, fields.last().1)
    }
}

/// Words joined by single spaces.
pub open spec fn joined(words: Seq<Seq<char>>) -> Seq<char>
    decreases words.len(),
{
    if words.len() == 0 {
        Seq::empty()
    } else if words.len() == 1 {
        words[0]
    } else {
        joined(words.drop_last()) + " "@ + words.last()
    }
}

/// The invocation for command `name` and the JSON form of its value
/// (`None` when the value has none): the name, followed by the words of
/// the fields when the JSON form is an object.
pub open spec fn invocation(name: Seq<char>, json: Option<JsonValue>) -> Seq<char> {
    match json {
        Some(JsonValue::Object(fields, _)) => joined(seq![name] + fields_words(fields@)),
        _ => name,
    }
}

fn is_plain(c: char) -> (r: bool)
    ensures
        r == is_plain_char(c),
{
    ('a' <= c && c <= 'z') || ('A' <= c && c <= 'Z') || ('0' <= c && c <= '9') || c == '-' || c
        == '_' || c == '.' || c == '/' || c == ':'
}

/// `text` as one shell word.
pub fn shell_escape(text: &str) -> (r: String)
    ensures
        r@ == shell_escaped(text@),
{
    let chars = chars_of(text);
    let mut i: usize = 0;
    while i < chars.len() && is_plain(chars[i])
        invariant
            i <= chars@.len(),
            chars@ == text@,
            forall|k: int| 0 <= k < i ==> #[trigger] is_plain_char(chars@[k]),
        decreases chars@.len() - i,
    {
        i += 1;
    }
    if i == chars.len() {
        return text.to_owned();
    }
    proof {
        assert(!is_plain_char(text@[i as int]));
    }
    let mut s = String::new();
    s.push('\'');
    let mut j: usize = 0;
    while j < chars.len()
        invariant
            j <= chars@.len(),
            chars@ == text@,
            s@ == seq!['\''] + quotes_escaped(chars@.take(j as int)),
        decreases chars@.len() - j,
    {
        let c = chars[j];
        proof {
            assert(chars@.take(j + 1).drop_last() =~= chars@.take(j as int));
            assert(chars@.take(j + 1).last() == c);
        }
        if c == '\'' {
            s.push('\'');
            s.push('\\');
            s.push('\'');
            s.push('\'');
            proof {
                assert(s@ =~= seq!['\''] + quotes_escaped(chars@.take(j + 1)));
            }
        } else {
            s.push(c);
            proof {
                assert(s@ =~= seq!['\''] + quotes_escaped(chars@.take(j + 1)));
            }
        }
        j += 1;
    }
    s.push('\'');
    proof {
        assert(chars@.take(chars@.len() as int) =~= chars@);
    }
    s
}

/// Appends the invocation words for field `key` holding `value`.
pub fn append_field(parts: &mut Vec<String>, key: &str, value: &JsonValue)
    ensures
        name_views(final(parts)@) == name_views(old(parts)@) + field_words(key@, *value),
    decreases value, 0int,
{
    let ghost start = name_views(parts@);
    match value {
        JsonValue::Null => {
            proof {
                assert(start + Seq::<Seq<char>>::empty() =~= start);
            }
        },
        JsonValue::Bool(b) => {
            if *b {
                let mut w = String::new();
                push_str(&mut w, "--");
                push_str(&mut w, key);
                parts.push(w);
                proof {
                    assert(name_views(parts@) =~= start + field_words(key@, *value));
                }
            } else {
                proof {
                    assert(start + Seq::<Seq<char>>::empty() =~= start);
                }
            }
        },
        JsonValue::String(text) => {
            if text.as_str().is_empty() {
                proof {
                    assert(start + Seq::<Seq<char>>::empty() =~= start);
                }
            } else {
                let mut w = String::new();
                push_str(&mut w, "--");
                push_str(&mut w, key);
                push_str(&mut w, " ");
                let escaped = shell_escape(text.as_str());
                push_str(&mut w, escaped.as_str());
                parts.push(w);
                proof {
                    assert(name_views(parts@) =~= start + field_words(key@, *value));
                }
            }
        },
        JsonValue::Number(number) => {
            let mut w = String::new();
            push_str(&mut w, "--");
            push_str(&mut w, key);
            push_str(&mut w, " ");
            push_str(&mut w, number.as_str());
            parts.push(w);
            proof {
                assert(name_views(parts@) =~= start + field_words(key@, *value));
            }
        },
        JsonValue::Array(items) => {
            append_items(parts, key, items);
        },
        JsonValue::Object(_, text) => {
            let mut w = String::new();
            push_str(&mut w, "--");
            push_str(&mut w, key);
            push_str(&mut w, " ");
            push_str(&mut w, text.as_str());
            parts.push(w);
            proof {
                assert(name_views(parts@) =~= start + field_words(key@, *value));
            }
        },
    }
}

/// Appends the invocation words for each item of an array under `key`.
fn append_items(parts: &mut Vec<String>, key: &str, items: &Vec<JsonValue>)
    ensures
        name_views(final(parts)@) == name_views(old(parts)@) + items_words(key@, items@),
    decreases items, 1int,
{
    let ghost start = name_views(parts@);
    let mut i: usize = 0;
    proof {
        assert(items@.subrange(0, 0) =~= Seq::<JsonValue>::empty());
        assert(start + items_words(key@, items@.subrange(0, 0)) =~= start);
    }
    while i < items.len()
        invariant
            i <= items@.len(),
            name_views(parts@) == start + items_words(key@, items@.subrange(0, i as int)),
        decreases items@.len() - i,
    {
        proof {
            let t = items@.subrange(0, i + 1);
            assert(t.subrange(0, t.len() - 1) =~= items@.subrange(0, i as int));
            assert(t[t.len() - 1] == items@[i as int]);
            assert(decreases_to!(items => items@[i as int]));
        }
        append_field(parts, key, &items[i]);
        proof {
            let t = items@.subrange(0, i + 1);
            assert(items_words(key@, t) == items_words(key@, items@.subrange(0, i as int))
                + field_words(key@, items@[i as int]));
            assert(name_views(parts@) =~= start + items_words(key@, t));
        }
        i += 1;
    }
    proof {
        assert(items@.subrange(0, items@.len() as int) =~= items@);
    }
}

/// Words joined by single spaces.
fn join_words(words: &Vec<String>) -> (r: String)
    ensures
        r@ == joined(name_views(words@)),
{
    let ghost w = name_views(words@);
    let mut s = String::new();
    let mut i: usize = 0;
    while i < words.len()
        invariant
            i <= words@.len(),
            w == name_views(words@),
            s@ == joined(w.take(i as int)),
        decreases words@.len() - i,
    {
        proof {
            let t = w.take(i + 1);
            assert(t.drop_last() =~= w.take(i as int));
            assert(t.last() == words@[i as int]@);
        }
        if i > 0 {
            push_str(&mut s, " ");
        }
        push_str(&mut s, words[i].as_str());
        proof {
            if i == 0 {
                assert(w.take(1).len() == 1);
                assert(joined(w.take(0)) =~= Seq::<char>::empty());
                assert(s@ =~= joined(w.take(1)));
            } else {
                assert(s@ =~= joined(w.take(i + 1)));
            }
        }
        i += 1;
    }
    proof {
        assert(w.take(w.len() as int) =~= w);
    }
    s
}

/// The invocation for command `name` and the JSON form of its value, or
/// `None` when the value could not be put in JSON form.
pub fn render_invocation(name: &str, json: &Option<JsonValue>) -> (r: String)
    ensures
        r@ == invocation(name@, *json),
{
    match json {
        Some(JsonValue::Object(fields, _)) => {
            let mut parts: Vec<String> = Vec::new();
            parts.push(name.to_owned());
            let ghost start = name_views(parts@);
            proof {
                assert(start =~= seq![name@]);
                assert(fields@.take(0) =~= Seq::<(String, JsonValue)>::empty());
                assert(start + fields_words(fields@.take(0)) =~= start);
            }
            let mut i: usize = 0;
            while i < fields.len()
                invariant
                    i <= fields@.len(),
                    start == seq![name@],
                    name_views(parts@) == start + fields_words(fields@.take(i as int)),
                decreases fields@.len() - i,
            {
                proof {
                    let t = fields@.take(i + 1);
                    assert(t.drop_last() =~= fields@.take(i as int));
                    assert(t.last() == fields@[i as int]);
                }
                append_field(&mut parts, fields[i].0.as_str(), &fields[i].1);
                proof {
                    assert(name_views(parts@) =~= start + fields_words(fields@.take(i + 1)));
                }
                i += 1;
            }
            proof {
                assert(fields@.take(fields@.len() as int) =~= fields@);
            }
            join_words(&parts)
        },
        _ => name.to_owned(),
    }
}


/// `c` in front of what a read gave, when it gave something.
pub open spec fn read_prepend(c: char, r: Option<Seq<char>>) -> Option<Seq<char>> {
    match r {
        Some(t) => Some(seq![c] + t),
        None => None,
    }
}

/// The text a POSIX shell reads from one word, or `None` where the word is
/// not one literal word. Outside quotes a backslash stands for the next
/// character, a single quote opens a quoted stretch, and of the rest only
/// ASCII letters, digits and `- _ . / :` stand for themselves (anything
/// else would split the word or be expanded). Inside single quotes every
/// character but the closing quote stands for itself, and a quote left
/// open is no word at all.
pub open spec fn shell_read(w: Seq<char>, quoted: bool) -> Option<Seq<char>>
    decreases w.len(),
{
    if w.len() == 0 {
        if quoted {
            None
        } else {
            Some(Seq::empty())
        }
    } else {
        let c = w[0];
        let rest = w.drop_first();
        if quoted {
            if c == '\'' {
                shell_read(rest, false)
            } else {
                read_prepend(c, shell_read(rest, true))
            }
        } else if c == '\'' {
            shell_read(rest, true)
        } else if c == '\\' {
            if rest.len() == 0 {
                None
            } else {
                read_prepend(rest[0], shell_read(rest.drop_first(), false))
            }
        } else if ('a' <= c && c <= 'z') || ('A' <= c && c <= 'Z') || ('0' <= c && c <= '9')
            || c == '-' || c == '_' || c == '.' || c == '/' || c == ':' {
            read_prepend(c, shell_read(rest, false))
        } else {
            None
        }
    }
}

proof fn lemma_escaped_front(c: char, u: Seq<char>)
    ensures
        quotes_escaped(seq![c] + u) == (if c == '\'' {
            seq!['\'', '\\', '\'', '\'']
        } else {
            seq![c]
        }) + quotes_escaped(u),
    decreases u.len(),
{
    let e = if c == '\'' {
        seq!['\'', '\\', '\'', '\'']
    } else {
        seq![c]
    };
    if u.len() == 0 {
        let one = seq![c];
        assert(seq![c] + u =~= one);
        assert(one.drop_last() =~= Seq::<char>::empty());
        assert(one.last() == c);
        assert(quotes_escaped(one.drop_last()) =~= Seq::<char>::empty());
        assert(quotes_escaped(u) =~= Seq::<char>::empty());
        assert(e + quotes_escaped(u) =~= e);
        assert(quotes_escaped(one) =~= e);
    } else {
        let v = seq![c] + u;
        assert(v.drop_last() =~= seq![c] + u.drop_last());
        assert(v.last() == u.last());
        lemma_escaped_front(c, u.drop_last());
        if u.last() == '\'' {
            assert(quotes_escaped(v) =~= e + quotes_escaped(u));
        } else {
            assert(quotes_escaped(v) =~= e + quotes_escaped(u));
        }
    }
}

proof fn lemma_escaped_len(t: Seq<char>)
    ensures
        quotes_escaped(t).len() >= t.len(),
    decreases t.len(),
{
    if t.len() > 0 {
        lemma_escaped_len(t.drop_last());
    }
}

proof fn lemma_read_quoted(t: Seq<char>)
    ensures
        shell_read(quotes_escaped(t) + seq!['\''], true) == Some(t),
    decreases t.len(),
{
    if t.len() == 0 {
        assert(t =~= Seq::<char>::empty());
        assert(quotes_escaped(t) =~= Seq::<char>::empty());
        let q = seq!['\''];
        assert(quotes_escaped(t) + seq!['\''] =~= q);
        assert(q.drop_first() =~= Seq::<char>::empty());
        assert(q[0] == '\'');
        assert(shell_read(q.drop_first(), false) == Some(Seq::<char>::empty()));
        assert(shell_read(q, true) == shell_read(q.drop_first(), false));
    } else {
        let c = t[0];
        let u = t.drop_first();
        assert(t =~= seq![c] + u);
        lemma_escaped_front(c, u);
        lemma_read_quoted(u);
        let tail = quotes_escaped(u) + seq!['\''];
        if c == '\'' {
            let w = seq!['\'', '\\', '\'', '\''] + tail;
            assert(quotes_escaped(t) + seq!['\''] =~= w);
            let w1 = seq!['\\', '\'', '\''] + tail;
            let w2 = seq!['\''] + tail;
            assert(w.drop_first() =~= w1);
            assert(w1.drop_first() =~= seq!['\'', '\''] + tail);
            assert(w1.drop_first()[0] == '\'');
            assert(w1.drop_first().drop_first() =~= w2);
            assert(w2.drop_first() =~= tail);
            assert(w[0] == '\'' && w1[0] == '\\' && w2[0] == '\'');
            assert(shell_read(w2, false) == shell_read(tail, true));
            assert(shell_read(w1, false) == read_prepend('\'', shell_read(w2, false)));
            assert(shell_read(w, true) == shell_read(w1, false));
            assert(seq![c] + u =~= t);
        } else {
            let w = seq![c] + tail;
            assert(quotes_escaped(t) + seq!['\''] =~= w);
            assert(w.drop_first() =~= tail);
            assert(w[0] == c);
            assert(shell_read(w, true) == read_prepend(c, shell_read(tail, true)));
            assert(seq![c] + u =~= t);
        }
    }
}

proof fn lemma_read_bare(t: Seq<char>)
    requires
        forall|i: int| 0 <= i < t.len() ==> #[trigger] is_plain_char(t[i]),
    ensures
        shell_read(t, false) == Some(t),
    decreases t.len(),
{
    if t.len() == 0 {
        assert(t =~= Seq::<char>::empty());
    } else {
        let u = t.drop_first();
        assert(is_plain_char(t[0]));
        assert forall|i: int| 0 <= i < u.len() implies #[trigger] is_plain_char(u[i]) by {
            assert(is_plain_char(t[i + 1]));
        }
        lemma_read_bare(u);
        assert(seq![t[0]] + u =~= t);
    }
}

/// Escaping is lossless: the shell reads back, as one word, exactly the
/// text that was escaped.
pub proof fn shell_reads_back_escaped_text(t: Seq<char>)
    ensures
        shell_read(shell_escaped(t), false) == Some(t),
{
    if forall|i: int| 0 <= i < t.len() ==> #[trigger] is_plain_char(t[i]) {
        lemma_read_bare(t);
    } else {
        lemma_read_quoted(t);
        let w = seq!['\''] + quotes_escaped(t) + seq!['\''];
        assert(w.drop_first() =~= quotes_escaped(t) + seq!['\'']);
    }
}

/// A text is left bare exactly when it holds only ASCII letters, digits and
/// `- _ . / :`; any other character, a single quote among them, puts the
/// whole text in single quotes.
pub proof fn escaped_text_is_bare_exactly_when_plain(t: Seq<char>)
    ensures
        (shell_escaped(t) == t) <==> (forall|i: int|
            0 <= i < t.len() ==> {
                let c = #[trigger] t[i];
                ('a' <= c && c <= 'z') || ('A' <= c && c <= 'Z') || ('0' <= c && c <= '9') || c
                    == '-' || c == '_' || c == '.' || c == '/' || c == ':'
            }),
        (exists|i: int| 0 <= i < t.len() && t[i] == '\'') ==> shell_escaped(t) == seq!['\'']
            + quotes_escaped(t) + seq!['\''],
{
    if forall|i: int| 0 <= i < t.len() ==> #[trigger] is_plain_char(t[i]) {
        assert forall|i: int| 0 <= i < t.len() implies {
            let c = #[trigger] t[i];
            ('a' <= c && c <= 'z') || ('A' <= c && c <= 'Z') || ('0' <= c && c <= '9') || c == '-'
                || c == '_' || c == '.' || c == '/' || c == ':'
        } by {
            assert(is_plain_char(t[i]));
        }
    } else {
        let k = choose|k: int| 0 <= k < t.len() && !is_plain_char(#[trigger] t[k]);
        lemma_escaped_len(t);
        assert(shell_escaped(t).len() > t.len());
        assert(!is_plain_char(t[k]));
    }
    if exists|i: int| 0 <= i < t.len() && t[i] == '\'' {
        let k = choose|k: int| 0 <= k < t.len() && t[k] == '\'';
        assert(!is_plain_char(t[k]));
    }
}

} // verus!
