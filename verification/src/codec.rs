//! The store codec: between the text of the task document and an ordered
//! task list.
//!
//! The document is a JSON array of objects with a `name` string and a
//! `completed` flag, written compactly in that key order, exactly as
//! [`encode_tasks`] produces it.  [`decode_tasks`] accepts precisely the
//! texts that [`encode_tasks`] can produce, maps the empty text to the
//! distinguished empty-store outcome, and reports anything else as corrupt.

use vstd::prelude::*;
use crate::task::{Task, TaskModel};

verus! {

// --- the document grammar, as specification functions ---

/// How one character of a task name stands inside a JSON string: quote,
/// backslash, newline, carriage return and tab are escaped, every other
/// character stands for itself.
pub open spec fn escape_char(c: char) -> Seq<char> {
    if c == '"' {
        seq!['\\', '"']
    } else if c == '\\' {
        seq!['\\', '\\']
    } else if c == '\n' {
        seq!['\\', 'n']
    } else if c == '\r' {
        seq!['\\', 'r']
    } else if c == '\t' {
        seq!['\\', 't']
    } else {
        seq![c]
    }
}

/// A task name escaped for the inside of a JSON string.
pub open spec fn escape_str(s: Seq<char>) -> Seq<char>
    decreases s.len(),
{
    if s.len() == 0 {
        Seq::empty()
    } else {
        escape_char(s[0]) + escape_str(s.skip(1))
    }
}

/// The opening of a task object, up to and including the quote that starts
/// the name string.
pub open spec fn name_prefix() -> Seq<char> {
    seq!['{', '"', 'n', 'a', 'm', 'e', '"', ':', '"']
}

/// From the quote that closes the name string up to and including the colon
/// before the completion flag.
pub open spec fn completed_infix() -> Seq<char> {
    seq!['"', ',', '"', 'c', 'o', 'm', 'p', 'l', 'e', 't', 'e', 'd', '"', ':']
}

/// The rendering of the completion flag.
pub open spec fn bool_lit(b: bool) -> Seq<char> {
    if b {
        seq!['t', 'r', 'u', 'e']
    } else {
        seq!['f', 'a', 'l', 's', 'e']
    }
}

/// One task as a JSON object.
pub open spec fn json_of_task(t: TaskModel) -> Seq<char> {
    name_prefix() + escape_str(t.name) + completed_infix() + bool_lit(t.completed) + seq!['}']
}

/// The tasks as comma-separated JSON objects, without the brackets.
pub open spec fn items_json(ts: Seq<TaskModel>) -> Seq<char>
    decreases ts.len(),
{
    if ts.len() == 0 {
        Seq::empty()
    } else if ts.len() == 1 {
        json_of_task(ts[0])
    } else {
        json_of_task(ts[0]) + seq![','] + items_json(ts.skip(1))
    }
}

/// The whole document: a JSON array of the tasks.
pub open spec fn json_of_tasks(ts: Seq<TaskModel>) -> Seq<char> {
    seq!['['] + items_json(ts) + seq![']']
}

// --- facts about the grammar ---

/// Escaping distributes over concatenation.
pub proof fn lemma_escape_append(a: Seq<char>, b: Seq<char>)
    ensures
        escape_str(a + b) == escape_str(a) + escape_str(b),
    decreases a.len(),
{
    if a.len() == 0 {
        assert(a + b =~= b);
        assert(escape_str(a) + escape_str(b) =~= escape_str(b));
    } else {
        assert((a + b).skip(1) =~= a.skip(1) + b);
        lemma_escape_append(a.skip(1), b);
        assert(escape_char((a + b)[0]) + (escape_str(a.skip(1)) + escape_str(b)) =~= (escape_char(
            a[0],
        ) + escape_str(a.skip(1))) + escape_str(b));
    }
}

/// Escaping one more character appends its escape.
pub proof fn lemma_escape_snoc(s: Seq<char>, i: int)
    requires
        0 <= i < s.len(),
    ensures
        escape_str(s.take(i + 1)) == escape_str(s.take(i)) + escape_char(s[i]),
{
    assert(s.take(i + 1) =~= s.take(i) + seq![s[i]]);
    lemma_escape_append(s.take(i), seq![s[i]]);
    let single = seq![s[i]];
    assert(single.skip(1) =~= Seq::<char>::empty());
    assert(escape_str(single) == escape_char(s[i]) + escape_str(Seq::<char>::empty()));
    assert(escape_char(s[i]) + Seq::<char>::empty() =~= escape_char(s[i]));
}

/// One more task in the middle of the item list appends a comma and its
/// object.
pub proof fn lemma_items_snoc(ts: Seq<TaskModel>, t: TaskModel)
    requires
        ts.len() >= 1,
    ensures
        items_json(ts.push(t)) == items_json(ts) + seq![','] + json_of_task(t),
    decreases ts.len(),
{
    if ts.len() == 1 {
        assert(ts.push(t).skip(1) =~= seq![t]);
        assert(items_json(seq![t]) == json_of_task(t));
        assert(items_json(ts.push(t)) =~= items_json(ts) + seq![','] + json_of_task(t));
    } else {
        assert(ts.push(t).skip(1) =~= ts.skip(1).push(t));
        lemma_items_snoc(ts.skip(1), t);
        assert(items_json(ts.push(t)) =~= items_json(ts) + seq![','] + json_of_task(t));
    }
}

// --- the encoder ---

/// Appends the escape of one name character to `out`.
fn push_escaped_char(c: char, out: &mut Vec<char>)
    ensures
        final(out)@ == old(out)@ + escape_char(c),
{
    if c == '"' {
        out.push('\\');
        out.push('"');
    } else if c == '\\' {
        out.push('\\');
        out.push('\\');
    } else if c == '\n' {
        out.push('\\');
        out.push('n');
    } else if c == '\r' {
        out.push('\\');
        out.push('r');
    } else if c == '\t' {
        out.push('\\');
        out.push('t');
    } else {
        out.push(c);
    }
    proof {
        assert(final(out)@ =~= old(out)@ + escape_char(c));
    }
}

/// Appends the escaped name to `out`.
fn push_escaped(name: &str, out: &mut Vec<char>)
    ensures
        final(out)@ == old(out)@ + escape_str(name@),
{
    let cs = crate::text::chars_of(name);
    let mut i: usize = 0;
    proof {
        assert(old(out)@ + escape_str(cs@.take(0)) =~= old(out)@);
    }
    while i < cs.len()
        invariant
            i <= cs@.len(),
            cs@ == name@,
            out@ == old(out)@ + escape_str(cs@.take(i as int)),
        decreases cs@.len() - i,
    {
        push_escaped_char(cs[i], out);
        proof {
            lemma_escape_snoc(cs@, i as int);
        }
        i += 1;
    }
    proof {
        assert(cs@.take(cs@.len() as int) =~= cs@);
    }
}

/// Appends one task as a JSON object to `out`.
#[verifier::rlimit(50)]
fn push_task_json(t: &Task, out: &mut Vec<char>)
    ensures
        final(out)@ == old(out)@ + json_of_task(t@),
{
    out.push('{');
    out.push('"');
    out.push('n');
    out.push('a');
    out.push('m');
    out.push('e');
    out.push('"');
    out.push(':');
    out.push('"');
    proof {
        assert(out@ =~= old(out)@ + name_prefix());
    }
    push_escaped(t.name.as_str(), out);
    let ghost mid1 = out@;
    out.push('"');
    out.push(',');
    out.push('"');
    out.push('c');
    out.push('o');
    out.push('m');
    out.push('p');
    out.push('l');
    out.push('e');
    out.push('t');
    out.push('e');
    out.push('d');
    out.push('"');
    out.push(':');
    proof {
        assert(out@ =~= mid1 + completed_infix());
    }
    let ghost mid2 = out@;
    if t.completed {
        out.push('t');
        out.push('r');
        out.push('u');
        out.push('e');
    } else {
        out.push('f');
        out.push('a');
        out.push('l');
        out.push('s');
        out.push('e');
    }
    proof {
        assert(out@ =~= mid2 + bool_lit(t.completed));
    }
    out.push('}');
    proof {
        assert(out@ =~= old(out)@ + json_of_task(t@));
    }
}

/// The whole document for `ts`, as characters.
pub fn encode_tasks_chars(ts: &Vec<Task>) -> (r: Vec<char>)
    ensures
        r@ == json_of_tasks(ts.deep_view()),
{
    let ghost dv = ts.deep_view();
    let mut out: Vec<char> = Vec::new();
    out.push('[');
    proof {
        assert(out@ =~= seq!['['] + items_json(dv.take(0)));
    }
    let mut i: usize = 0;
    while i < ts.len()
        invariant
            i <= ts@.len(),
            dv == ts.deep_view(),
            dv.len() == ts@.len(),
            out@ == seq!['['] + items_json(dv.take(i as int)),
        decreases ts@.len() - i,
    {
        let ghost before = out@;
        if i > 0 {
            out.push(',');
        }
        push_task_json(&ts[i], &mut out);
        proof {
            assert(ts@[i as int]@ == dv[i as int]);
            if i == 0 {
                assert(dv.take(1) =~= seq![dv[0]]);
                assert(items_json(dv.take(1)) == json_of_task(dv[0]));
                assert(out@ =~= seq!['['] + items_json(dv.take(1)));
            } else {
                assert(dv.take(i + 1 as int) =~= dv.take(i as int).push(dv[i as int]));
                lemma_items_snoc(dv.take(i as int), dv[i as int]);
                assert(out@ =~= seq!['['] + items_json(dv.take(i + 1 as int)));
            }
        }
        i += 1;
    }
    out.push(']');
    proof {
        assert(dv.take(dv.len() as int) =~= dv);
        assert(out@ =~= json_of_tasks(dv));
    }
    out
}

/// Serializes the task list to the document text.  Saving a well-formed list
/// cannot fail.
pub fn encode_tasks(ts: &Vec<Task>) -> (r: String)
    ensures
        r@ == json_of_tasks(ts.deep_view()),
{
    let cs = encode_tasks_chars(ts);
    crate::text::string_of(&cs)
}

// --- the parser, first as specification functions ---

/// The character an escape code stands for, if it is a valid code.
pub open spec fn unescape_char(c: char) -> Option<char> {
    if c == '"' {
        Some('"')
    } else if c == '\\' {
        Some('\\')
    } else if c == 'n' {
        Some('\n')
    } else if c == 'r' {
        Some('\r')
    } else if c == 't' {
        Some('\t')
    } else {
        None
    }
}

/// Reads the inside of a JSON string starting at `i`, up to and including
/// the closing quote; yields the unescaped name and the position after the
/// quote.
pub open spec fn sp_string(s: Seq<char>, i: int) -> Option<(Seq<char>, int)>
    decreases s.len() - i,
{
    if i < 0 || i >= s.len() {
        None
    } else if s[i] == '"' {
        Some((Seq::empty(), i + 1))
    } else if s[i] == '\\' {
        if i + 1 >= s.len() {
            None
        } else {
            match unescape_char(s[i + 1]) {
                None => None,
                Some(c) => match sp_string(s, i + 2) {
                    None => None,
                    Some((nm, j)) => Some((seq![c] + nm, j)),
                },
            }
        }
    } else {
        match sp_string(s, i + 1) {
            None => None,
            Some((nm, j)) => Some((seq![s[i]] + nm, j)),
        }
    }
}

/// Reads a boolean literal starting at `i`.
pub open spec fn sp_bool(s: Seq<char>, i: int) -> Option<(bool, int)> {
    if 0 <= i && i + 4 <= s.len() && s[i] == 't' && s[i + 1] == 'r' && s[i + 2] == 'u' && s[i + 3]
        == 'e' {
        Some((true, i + 4))
    } else if 0 <= i && i + 5 <= s.len() && s[i] == 'f' && s[i + 1] == 'a' && s[i + 2] == 'l'
        && s[i + 3] == 's' && s[i + 4] == 'e' {
        Some((false, i + 5))
    } else {
        None
    }
}

/// Reads one task object starting at `i`: the name field, the completed
/// field, in that key order, with no padding.
pub open spec fn sp_task(s: Seq<char>, i: int) -> Option<(TaskModel, int)> {
    if !(0 <= i && i + 9 <= s.len() && s[i] == '{' && s[i + 1] == '"' && s[i + 2] == 'n' && s[i
        + 3] == 'a' && s[i + 4] == 'm' && s[i + 5] == 'e' && s[i + 6] == '"' && s[i + 7] == ':'
        && s[i + 8] == '"') {
        None
    } else {
        match sp_string(s, i + 9) {
            None => None,
            Some((nm, j)) => if !(j + 13 <= s.len() && s[j] == ',' && s[j + 1] == '"' && s[j + 2]
                == 'c' && s[j + 3] == 'o' && s[j + 4] == 'm' && s[j + 5] == 'p' && s[j + 6] == 'l'
                && s[j + 7] == 'e' && s[j + 8] == 't' && s[j + 9] == 'e' && s[j + 10] == 'd' && s[j
                + 11] == '"' && s[j + 12] == ':') {
                None
            } else {
                match sp_bool(s, j + 13) {
                    None => None,
                    Some((b, k)) => if k < s.len() && s[k] == '}' {
                        Some((TaskModel { name: nm, completed: b }, k + 1))
                    } else {
                        None
                    },
                }
            },
        }
    }
}

/// Reads one or more comma-separated task objects starting at `i`, followed
/// by the closing bracket, which must end the document.
pub open spec fn sp_items(s: Seq<char>, i: int) -> Option<Seq<TaskModel>>
    decreases s.len() - i,
{
    match sp_task(s, i) {
        None => None,
        Some((t, j)) => if j == s.len() - 1 && s[j] == ']' {
            Some(seq![t])
        } else if i < j && j < s.len() && s[j] == ',' {
            match sp_items(s, j + 1) {
                None => None,
                Some(ts) => Some(seq![t] + ts),
            }
        } else {
            None
        },
    }
}

/// Reads a whole document: the empty array, or a bracketed item list.
pub open spec fn sp_tasks(s: Seq<char>) -> Option<Seq<TaskModel>> {
    if s.len() >= 1 && s[0] == '[' {
        if s.len() == 2 && s[1] == ']' {
            Some(Seq::empty())
        } else {
            sp_items(s, 1)
        }
    } else {
        None
    }
}

// --- the executable parser, proved to return what the specification
// parser reads ---

/// Reads the inside of a JSON string starting at `i`.
fn ex_string(s: &Vec<char>, i: usize) -> (r: Option<(Vec<char>, usize)>)
    requires
        i <= s@.len(),
    ensures
        match r {
            Some(p) => sp_string(s@, i as int) == Some((p.0@, p.1 as int)) && i < p.1 <= s@.len(),
            None => sp_string(s@, i as int) is None,
        },
    decreases s@.len() - i,
{
    if i >= s.len() {
        return None;
    }
    let c = s[i];
    if c == '"' {
        let nm: Vec<char> = Vec::new();
        proof {
            assert(nm@ =~= Seq::<char>::empty());
        }
        return Some((nm, i + 1));
    }
    if c == '\\' {
        if i + 1 >= s.len() {
            return None;
        }
        let d = s[i + 1];
        let u: char = if d == '"' {
            '"'
        } else if d == '\\' {
            '\\'
        } else if d == 'n' {
            '\n'
        } else if d == 'r' {
            '\r'
        } else if d == 't' {
            '\t'
        } else {
            return None;
        };
        proof {
            assert(unescape_char(s@[i + 1 as int]) == Some(u));
        }
        match ex_string(s, i + 2) {
            None => None,
            Some((mut nm, j)) => {
                nm.insert(0, u);
                proof {
                    let (nm0, _) = sp_string(s@, i + 2 as int).unwrap();
                    assert(nm@ =~= seq![u] + nm0);
                }
                Some((nm, j))
            },
        }
    } else {
        match ex_string(s, i + 1) {
            None => None,
            Some((mut nm, j)) => {
                nm.insert(0, c);
                proof {
                    let (nm0, _) = sp_string(s@, i + 1 as int).unwrap();
                    assert(nm@ =~= seq![c] + nm0);
                }
                Some((nm, j))
            },
        }
    }
}

/// Reads a boolean literal starting at `i`.
fn ex_bool(s: &Vec<char>, i: usize) -> (r: Option<(bool, usize)>)
    requires
        i <= s@.len(),
    ensures
        match r {
            Some(p) => sp_bool(s@, i as int) == Some((p.0, p.1 as int)) && i < p.1 <= s@.len(),
            None => sp_bool(s@, i as int) is None,
        },
{
    if s.len() - i >= 4 && s[i] == 't' && s[i + 1] == 'r' && s[i + 2] == 'u' && s[i + 3] == 'e' {
        Some((true, i + 4))
    } else if s.len() - i >= 5 && s[i] == 'f' && s[i + 1] == 'a' && s[i + 2] == 'l' && s[i + 3]
        == 's' && s[i + 4] == 'e' {
        Some((false, i + 5))
    } else {
        None
    }
}

/// Reads one task object starting at `i`.
#[verifier::rlimit(50)]
fn ex_task(s: &Vec<char>, i: usize) -> (r: Option<(Task, usize)>)
    requires
        i <= s@.len(),
    ensures
        match r {
            Some(p) => sp_task(s@, i as int) == Some((p.0@, p.1 as int)) && i < p.1 <= s@.len(),
            None => sp_task(s@, i as int) is None,
        },
{
    if !(s.len() - i >= 9 && s[i] == '{' && s[i + 1] == '"' && s[i + 2] == 'n' && s[i + 3] == 'a'
        && s[i + 4] == 'm' && s[i + 5] == 'e' && s[i + 6] == '"' && s[i + 7] == ':' && s[i + 8]
        == '"') {
        return None;
    }
    match ex_string(s, i + 9) {
        None => None,
        Some((nm, j)) => {
            if !(s.len() - j >= 13 && s[j] == ',' && s[j + 1] == '"' && s[j + 2] == 'c' && s[j + 3]
                == 'o' && s[j + 4] == 'm' && s[j + 5] == 'p' && s[j + 6] == 'l' && s[j + 7] == 'e'
                && s[j + 8] == 't' && s[j + 9] == 'e' && s[j + 10] == 'd' && s[j + 11] == '"' && s[j
                + 12] == ':') {
                return None;
            }
            match ex_bool(s, j + 13) {
                None => None,
                Some((b, k)) => {
                    if k < s.len() && s[k] == '}' {
                        let name = crate::text::string_of(&nm);
                        Some((Task { name, completed: b }, k + 1))
                    } else {
                        None
                    }
                },
            }
        },
    }
}

/// Reads the item list from `i` to the end of the document.
fn ex_items(s: &Vec<char>, i: usize) -> (r: Option<Vec<Task>>)
    requires
        i <= s@.len(),
    ensures
        match r {
            Some(v) => sp_items(s@, i as int) == Some(v.deep_view()),
            None => sp_items(s@, i as int) is None,
        },
    decreases s@.len() - i,
{
    match ex_task(s, i) {
        None => None,
        Some((t, j)) => {
            if j == s.len() - 1 && s[j] == ']' {
                let mut v: Vec<Task> = Vec::new();
                v.push(t);
                proof {
                    assert(v.deep_view() =~= seq![t@]);
                }
                Some(v)
            } else if j < s.len() && s[j] == ',' {
                match ex_items(s, j + 1) {
                    None => None,
                    Some(mut ts) => {
                        ts.insert(0, t);
                        proof {
                            let rest = sp_items(s@, j + 1 as int).unwrap();
                            assert(ts.deep_view() =~= seq![t@] + rest);
                        }
                        Some(ts)
                    },
                }
            } else {
                None
            }
        },
    }
}

// --- completeness: the parser reads back every encoded document ---

/// Where a document holds an escaped name followed by its closing quote,
/// the string reader yields exactly that name and stops after the quote.
pub proof fn lemma_sp_string_complete(s: Seq<char>, i: int, nm: Seq<char>)
    requires
        0 <= i,
        i + escape_str(nm).len() + 1 <= s.len(),
        s.subrange(i, i + escape_str(nm).len() as int) == escape_str(nm),
        s[i + escape_str(nm).len()] == '"',
    ensures
        sp_string(s, i) == Some((nm, i + escape_str(nm).len() + 1)),
    decreases nm.len(),
{
    let e = escape_str(nm);
    let el = e.len() as int;
    assert forall|m: int| 0 <= m < el implies #[trigger] e[m] == s[i + m] by {
        assert(s.subrange(i, i + el)[m] == s[i + m]);
    }
    if nm.len() == 0 {
        assert(s[i] == '"');
        assert(nm =~= Seq::<char>::empty());
    } else {
        let c = nm[0];
        let e1 = escape_char(c);
        let rest = escape_str(nm.skip(1));
        let w = e1.len() as int;
        let rl = rest.len() as int;
        assert(e == e1 + rest);
        assert(el == w + rl);
        assert forall|k: int| 0 <= k < rl implies #[trigger] rest[k] == s[i + w + k] by {
            assert((e1 + rest)[w + k] == rest[k]);
            assert(e[w + k] == s[i + (w + k)]);
        }
        assert(s.subrange(i + w, i + w + rl) =~= rest) by {
            assert forall|k: int| 0 <= k < rl implies s.subrange(i + w, i + w + rl)[k] == rest[k]
                by {
                assert(s.subrange(i + w, i + w + rl)[k] == s[(i + w) + k]);
                assert(rest[k] == s[i + w + k]);
            }
        }
        assert(s[i + w + rl] == '"');
        lemma_sp_string_complete(s, i + w, nm.skip(1));
        assert(seq![c] + nm.skip(1) =~= nm);
        if c == '"' || c == '\\' || c == '\n' || c == '\r' || c == '\t' {
            assert(w == 2);
            assert(s[i] == '\\') by {
                assert(e[0] == s[i + 0]);
                assert((e1 + rest)[0] == e1[0]);
            }
            assert(s[i + 1] == e1[1]) by {
                assert(e[1] == s[i + 1]);
                assert((e1 + rest)[1] == e1[1]);
            }
            assert(unescape_char(s[i + 1]) == Some(c));
        } else {
            assert(w == 1);
            assert(s[i] == c) by {
                assert(e[0] == s[i + 0]);
                assert((e1 + rest)[0] == e1[0]);
            }
            assert(s[i] != '"' && s[i] != '\\');
        }
    }
}

/// Where a document holds a boolean literal, the boolean reader yields it.
pub proof fn lemma_sp_bool_complete(s: Seq<char>, i: int, b: bool)
    requires
        0 <= i,
        i + bool_lit(b).len() <= s.len(),
        s.subrange(i, i + bool_lit(b).len() as int) == bool_lit(b),
    ensures
        sp_bool(s, i) == Some((b, i + bool_lit(b).len())),
{
    let l = bool_lit(b);
    let ll = l.len() as int;
    assert forall|m: int| 0 <= m < ll implies #[trigger] l[m] == s[i + m] by {
        assert(s.subrange(i, i + ll)[m] == s[i + m]);
    }
    if b {
        assert(l[0] == s[i + 0] && l[1] == s[i + 1] && l[2] == s[i + 2] && l[3] == s[i + 3]);
        assert(s[i] == 't' && s[i + 1] == 'r' && s[i + 2] == 'u' && s[i + 3] == 'e');
    } else {
        assert(l[0] == s[i + 0] && l[1] == s[i + 1] && l[2] == s[i + 2] && l[3] == s[i + 3] && l[4]
            == s[i + 4]);
        assert(s[i] == 'f' && s[i + 1] == 'a' && s[i + 2] == 'l' && s[i + 3] == 's' && s[i + 4]
            == 'e');
    }
}

/// One task object is at least the length of its fixed punctuation.
pub proof fn lemma_json_of_task_len(t: TaskModel)
    ensures
        json_of_task(t).len() >= 28,
{
    assert(name_prefix().len() == 9 && completed_infix().len() == 14 && bool_lit(
        t.completed,
    ).len() >= 4);
}

/// Where a document holds an encoded task object, the task reader yields
/// exactly that task and stops after its closing brace.
#[verifier::rlimit(100)]
pub proof fn lemma_sp_task_complete(s: Seq<char>, i: int, t: TaskModel)
    requires
        0 <= i,
        i + json_of_task(t).len() <= s.len(),
        s.subrange(i, i + json_of_task(t).len() as int) == json_of_task(t),
    ensures
        sp_task(s, i) == Some((t, i + json_of_task(t).len())),
{
    let jt = json_of_task(t);
    let jl = jt.len() as int;
    let e = escape_str(t.name);
    let el = e.len() as int;
    let inf = completed_infix();
    let lit = bool_lit(t.completed);
    let ll = lit.len() as int;
    assert(name_prefix().len() == 9 && inf.len() == 14);
    assert(jl == 9 + el + 14 + ll + 1);
    assert forall|m: int| 0 <= m < jl implies #[trigger] jt[m] == s[i + m] by {
        assert(s.subrange(i, i + jl)[m] == s[i + m]);
    }
    // the object opening
    assert(jt[0] == s[i + 0] && jt[1] == s[i + 1] && jt[2] == s[i + 2] && jt[3] == s[i + 3]
        && jt[4] == s[i + 4] && jt[5] == s[i + 5] && jt[6] == s[i + 6] && jt[7] == s[i + 7]
        && jt[8] == s[i + 8]);
    assert(s[i] == '{' && s[i + 1] == '"' && s[i + 2] == 'n' && s[i + 3] == 'a' && s[i + 4] == 'm'
        && s[i + 5] == 'e' && s[i + 6] == '"' && s[i + 7] == ':' && s[i + 8] == '"');
    // the escaped name sits after the opening
    assert forall|k: int| 0 <= k < el implies #[trigger] e[k] == s[i + 9 + k] by {
        assert(jt[9 + k] == s[i + (9 + k)]);
        assert((name_prefix() + e)[9 + k] == e[k]);
    }
    assert(s.subrange(i + 9, i + 9 + el) =~= e) by {
        assert forall|k: int| 0 <= k < el implies s.subrange(i + 9, i + 9 + el)[k] == e[k] by {
            assert(s.subrange(i + 9, i + 9 + el)[k] == s[(i + 9) + k]);
            assert(e[k] == s[i + 9 + k]);
        }
    }
    // the quote closing the name, and the completed key after it
    assert forall|k: int| 0 <= k < 14 implies #[trigger] inf[k] == s[i + 9 + el + k] by {
        assert(jt[9 + el + k] == s[i + (9 + el + k)]);
        assert(((name_prefix() + e) + inf)[9 + el + k] == inf[k]);
    }
    assert(inf[0] == s[i + 9 + el + 0]);
    assert(s[i + 9 + el] == '"');
    lemma_sp_string_complete(s, i + 9, t.name);
    let j = i + 9 + el + 1;
    assert(sp_string(s, i + 9) == Some((t.name, j)));
    assert(inf[1] == s[i + 9 + el + 1] && inf[2] == s[i + 9 + el + 2] && inf[3] == s[i + 9 + el
        + 3] && inf[4] == s[i + 9 + el + 4] && inf[5] == s[i + 9 + el + 5] && inf[6] == s[i + 9
        + el + 6] && inf[7] == s[i + 9 + el + 7] && inf[8] == s[i + 9 + el + 8] && inf[9] == s[i
        + 9 + el + 9] && inf[10] == s[i + 9 + el + 10] && inf[11] == s[i + 9 + el + 11] && inf[12]
        == s[i + 9 + el + 12] && inf[13] == s[i + 9 + el + 13]);
    assert(s[j] == ',' && s[j + 1] == '"' && s[j + 2] == 'c' && s[j + 3] == 'o' && s[j + 4] == 'm'
        && s[j + 5] == 'p' && s[j + 6] == 'l' && s[j + 7] == 'e' && s[j + 8] == 't' && s[j + 9]
        == 'e' && s[j + 10] == 'd' && s[j + 11] == '"' && s[j + 12] == ':');
    // the boolean literal
    assert forall|k: int| 0 <= k < ll implies #[trigger] lit[k] == s[j + 13 + k] by {
        assert(jt[9 + el + 14 + k] == s[i + (9 + el + 14 + k)]);
        assert((((name_prefix() + e) + inf) + lit)[9 + el + 14 + k] == lit[k]);
    }
    assert(s.subrange(j + 13, j + 13 + ll) =~= lit) by {
        assert forall|k: int| 0 <= k < ll implies s.subrange(j + 13, j + 13 + ll)[k] == lit[k] by {
            assert(s.subrange(j + 13, j + 13 + ll)[k] == s[(j + 13) + k]);
            assert(lit[k] == s[j + 13 + k]);
        }
    }
    lemma_sp_bool_complete(s, j + 13, t.completed);
    let k = j + 13 + ll;
    assert(sp_bool(s, j + 13) == Some((t.completed, k)));
    // the closing brace
    assert(jt[jl - 1] == s[i + (jl - 1)]);
    assert(jt[jl - 1] == '}');
    assert(s[k] == '}');
    assert(t == (TaskModel { name: t.name, completed: t.completed }));
    assert(k + 1 == i + jl);
}

/// A non-empty item list is never empty text.
pub proof fn lemma_items_json_len(ts: Seq<TaskModel>)
    requires
        ts.len() >= 1,
    ensures
        items_json(ts).len() >= 28,
{
    lemma_json_of_task_len(ts[0]);
}

/// Where a document holds encoded items up to its final closing bracket,
/// the item reader yields exactly those tasks.
#[verifier::rlimit(100)]
pub proof fn lemma_sp_items_complete(s: Seq<char>, i: int, ts: Seq<TaskModel>)
    requires
        ts.len() >= 1,
        0 <= i,
        i + items_json(ts).len() == s.len() - 1,
        s.subrange(i, i + items_json(ts).len() as int) == items_json(ts),
        s[s.len() - 1] == ']',
    ensures
        sp_items(s, i) == Some(ts),
    decreases ts.len(),
{
    let it = items_json(ts);
    let itl = it.len() as int;
    let jt0 = json_of_task(ts[0]);
    let jl = jt0.len() as int;
    lemma_json_of_task_len(ts[0]);
    assert forall|m: int| 0 <= m < itl implies #[trigger] it[m] == s[i + m] by {
        assert(s.subrange(i, i + itl)[m] == s[i + m]);
    }
    if ts.len() == 1 {
        assert(it == jt0);
        assert(s.subrange(i, i + jl) =~= jt0) by {
            assert forall|k: int| 0 <= k < jl implies s.subrange(i, i + jl)[k] == jt0[k] by {
                assert(s.subrange(i, i + jl)[k] == s[i + k]);
                assert(it[k] == s[i + k]);
            }
        }
        lemma_sp_task_complete(s, i, ts[0]);
        let j = i + jl;
        assert(j == s.len() - 1 && s[j] == ']');
        assert(seq![ts[0]] =~= ts);
    } else {
        let rest = items_json(ts.skip(1));
        let rl = rest.len() as int;
        lemma_items_json_len(ts.skip(1));
        assert(it == (jt0 + seq![',']) + rest);
        assert(itl == jl + 1 + rl);
        assert forall|k: int| 0 <= k < jl implies #[trigger] jt0[k] == s[i + k] by {
            assert(((jt0 + seq![',']) + rest)[k] == (jt0 + seq![','])[k]);
            assert(it[k] == s[i + k]);
        }
        assert(s.subrange(i, i + jl) =~= jt0) by {
            assert forall|k: int| 0 <= k < jl implies s.subrange(i, i + jl)[k] == jt0[k] by {
                assert(s.subrange(i, i + jl)[k] == s[i + k]);
                assert(jt0[k] == s[i + k]);
            }
        }
        lemma_sp_task_complete(s, i, ts[0]);
        let j = i + jl;
        assert(it[jl] == s[i + jl]);
        assert(((jt0 + seq![',']) + rest)[jl] == (jt0 + seq![','])[jl]);
        assert(s[j] == ',');
        assert(j < s.len() - 1);
        assert forall|k: int| 0 <= k < rl implies #[trigger] rest[k] == s[j + 1 + k] by {
            assert(((jt0 + seq![',']) + rest)[jl + 1 + k] == rest[k]);
            assert(it[jl + 1 + k] == s[i + (jl + 1 + k)]);
        }
        assert(s.subrange(j + 1, j + 1 + rl) =~= rest) by {
            assert forall|k: int| 0 <= k < rl implies s.subrange(j + 1, j + 1 + rl)[k] == rest[k]
                by {
                assert(s.subrange(j + 1, j + 1 + rl)[k] == s[(j + 1) + k]);
                assert(rest[k] == s[j + 1 + k]);
            }
        }
        lemma_sp_items_complete(s, j + 1, ts.skip(1));
        assert(seq![ts[0]] + ts.skip(1) =~= ts);
    }
}

/// Every document the encoder writes is read back as the same task list:
/// the round-trip law at the level of the grammar.
pub proof fn lemma_document_complete(ts: Seq<TaskModel>, s: Seq<char>)
    requires
        s == json_of_tasks(ts),
    ensures
        sp_tasks(s) == Some(ts),
{
    let it = items_json(ts);
    let itl = it.len() as int;
    assert(s == (seq!['['] + it) + seq![']']);
    assert(s.len() == 2 + itl);
    assert(s[0] == '[') by {
        assert((seq!['['] + it)[0] == '[');
    }
    assert(s[s.len() - 1] == ']');
    if ts.len() == 0 {
        assert(itl == 0);
        assert(s.len() == 2);
        assert(ts =~= Seq::<TaskModel>::empty());
    } else {
        lemma_items_json_len(ts);
        assert(s.len() > 2);
        assert forall|k: int| 0 <= k < itl implies #[trigger] it[k] == s[1 + k] by {
            assert(((seq!['['] + it) + seq![']'])[1 + k] == (seq!['['] + it)[1 + k]);
            assert((seq!['['] + it)[1 + k] == it[k]);
        }
        assert(s.subrange(1, 1 + itl) =~= it) by {
            assert forall|k: int| 0 <= k < itl implies s.subrange(1, 1 + itl)[k] == it[k] by {
                assert(s.subrange(1, 1 + itl)[k] == s[1 + k]);
                assert(it[k] == s[1 + k]);
            }
        }
        lemma_sp_items_complete(s, 1, ts);
    }
}

/// Reads a whole document.
fn ex_tasks(s: &Vec<char>) -> (r: Option<Vec<Task>>)
    ensures
        match r {
            Some(v) => sp_tasks(s@) == Some(v.deep_view()),
            None => sp_tasks(s@) is None,
        },
{
    if s.len() >= 1 && s[0] == '[' {
        if s.len() == 2 && s[1] == ']' {
            let v: Vec<Task> = Vec::new();
            proof {
                assert(v.deep_view() =~= Seq::<TaskModel>::empty());
            }
            Some(v)
        } else {
            ex_items(s, 1)
        }
    } else {
        None
    }
}

// --- the public decoder ---

/// What loading the document text yields.
pub enum LoadOutcome {
    /// The text was a well-formed document holding these tasks, in order.
    Loaded(Vec<Task>),
    /// The text was empty: the recognized zero-task state, not an error.
    EmptyStore,
    /// The text was neither empty nor a well-formed document.
    Corrupt,
}

/// Whether the outcome is a loaded list whose tasks model `ts`.
pub open spec fn is_loaded_with(r: LoadOutcome, ts: Seq<TaskModel>) -> bool {
    match r {
        LoadOutcome::Loaded(v) => v.deep_view() == ts,
        _ => false,
    }
}

/// Deserializes the document text.
///
/// The empty text is the distinguished empty store.  Any text the encoder
/// can produce loads as exactly the task list it encodes — so a save
/// followed by a load returns an equal sequence.  Every other text is
/// reported as corrupt, and a loaded result is always the decoding of a
/// well-formed document.
pub fn decode_tasks(text: &str) -> (r: LoadOutcome)
    ensures
        (r is EmptyStore) <==> text@.len() == 0,
        r matches LoadOutcome::Loaded(v) ==> text@ == json_of_tasks(v.deep_view()),
        forall|ts: Seq<TaskModel>| text@ == json_of_tasks(ts) ==> is_loaded_with(r, ts),
{
    let cs = crate::text::chars_of(text);
    if cs.len() == 0 {
        return LoadOutcome::EmptyStore;
    }
    match ex_tasks(&cs) {
        None => {
            proof {
                assert forall|ts: Seq<TaskModel>| text@ == json_of_tasks(ts) implies is_loaded_with(
                    LoadOutcome::Corrupt,
                    ts,
                ) by {
                    lemma_document_complete(ts, cs@);
                }
            }
            LoadOutcome::Corrupt
        },
        Some(v) => {
            // re-encoding and comparing is what makes a loaded result
            // provably the encoding of the given text
            let enc = encode_tasks_chars(&v);
            if crate::text::chars_eq(&enc, &cs) {
                proof {
                    assert forall|ts: Seq<TaskModel>| text@ == json_of_tasks(ts) implies is_loaded_with(
                        LoadOutcome::Loaded(v),
                        ts,
                    ) by {
                        lemma_document_complete(ts, cs@);
                    }
                }
                LoadOutcome::Loaded(v)
            } else {
                proof {
                    assert forall|ts: Seq<TaskModel>| text@ == json_of_tasks(ts) implies is_loaded_with(
                        LoadOutcome::Corrupt,
                        ts,
                    ) by {
                        lemma_document_complete(ts, cs@);
                    }
                }
                LoadOutcome::Corrupt
            }
        },
    }
}

} // verus!
