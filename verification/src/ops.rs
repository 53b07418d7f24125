//! The four operations on the task document: list, add, toggle completion,
//! and delete.
//!
//! Each operation takes the current document text (and the relevant line of
//! user input) and returns what should happen: the new document text to
//! write, the listing to print, or the reason nothing is written.  The
//! caller performs the reading, prompting and writing around these calls.
//!
//! A line number of `0` or one past the end of the list is reported as a
//! dedicated out-of-range outcome and the document is left untouched; this
//! replaces the unchecked index arithmetic such an input would otherwise
//! reach.

use vstd::prelude::*;
use crate::codec::{json_of_tasks, LoadOutcome};
use crate::num::NumParseError;
use crate::task::{Task, TaskModel};

verus! {

// --- the listing ---

/// The status column of a listing line.
pub open spec fn status_text(completed: bool) -> Seq<char> {
    if completed {
        seq!['C', 'o', 'm', 'p', 'l', 'e', 't', 'e', 'd']
    } else {
        seq!['N', 'o', 't', ' ', 'c', 'o', 'm', 'p', 'l', 'e', 't', 'e', 'd']
    }
}

/// The listing line for the task at position `i` (printed one-based):
/// `<number>) <name>: <status>`.
pub open spec fn line_of(i: int, t: TaskModel) -> Seq<char> {
    crate::num::dec_str_of((i + 1) as nat) + seq![')', ' '] + t.name + seq![':', ' ']
        + status_text(t.completed)
}

/// The listing lines for a whole task list.
pub open spec fn listing_of(ts: Seq<TaskModel>) -> Seq<Seq<char>> {
    Seq::new(ts.len(), |i: int| line_of(i, ts[i]))
}

/// Appends the characters of `src` to `out`.
fn push_chars(src: &Vec<char>, out: &mut Vec<char>)
    ensures
        final(out)@ == old(out)@ + src@,
{
    let mut i: usize = 0;
    proof {
        assert(old(out)@ + src@.take(0) =~= old(out)@);
    }
    while i < src.len()
        invariant
            i <= src@.len(),
            out@ == old(out)@ + src@.take(i as int),
        decreases src@.len() - i,
    {
        out.push(src[i]);
        proof {
            assert(old(out)@ + src@.take(i + 1 as int) =~= (old(out)@ + src@.take(i as int)).push(
                src@[i as int],
            ));
        }
        i += 1;
    }
    proof {
        assert(src@.take(src@.len() as int) =~= src@);
    }
}

/// Appends the status column to `out`.
fn push_status(completed: bool, out: &mut Vec<char>)
    ensures
        final(out)@ == old(out)@ + status_text(completed),
{
    if completed {
        out.push('C');
        out.push('o');
        out.push('m');
        out.push('p');
        out.push('l');
        out.push('e');
        out.push('t');
        out.push('e');
        out.push('d');
    } else {
        out.push('N');
        out.push('o');
        out.push('t');
        out.push(' ');
        out.push('c');
        out.push('o');
        out.push('m');
        out.push('p');
        out.push('l');
        out.push('e');
        out.push('t');
        out.push('e');
        out.push('d');
    }
    proof {
        assert(final(out)@ =~= old(out)@ + status_text(completed));
    }
}

/// The listing line for the task at position `i`.
#[verifier::rlimit(50)]
fn render_line(i: usize, t: &Task) -> (l: String)
    requires
        i < usize::MAX,
    ensures
        l@ == line_of(i as int, t@),
{
    let mut line: Vec<char> = Vec::new();
    crate::num::push_dec((i + 1) as u64, &mut line);
    line.push(')');
    line.push(' ');
    let nm = crate::text::chars_of(t.name.as_str());
    push_chars(&nm, &mut line);
    line.push(':');
    line.push(' ');
    push_status(t.completed, &mut line);
    proof {
        assert(line@ =~= line_of(i as int, t@));
    }
    crate::text::string_of(&line)
}

/// What the list operation yields.
pub enum ListOutcome {
    /// One printable line per task, in stored order.
    Listing(Vec<String>),
    /// The document was empty: there are no tasks yet.
    NoTasksYet,
    /// The document was neither empty nor well formed.
    Corrupt,
}

/// Whether the outcome is a listing with exactly these lines.
pub open spec fn is_listing_of(r: ListOutcome, ts: Seq<TaskModel>) -> bool {
    match r {
        ListOutcome::Listing(lines) => lines.deep_view() == listing_of(ts),
        _ => false,
    }
}

/// The list operation: reads the document and renders one line per task,
/// `<number>) <name>: <status>`, numbered from one, in stored order.
pub fn list_tasks(text: &str) -> (r: ListOutcome)
    ensures
        (r is NoTasksYet) <==> text@.len() == 0,
        r matches ListOutcome::Listing(lines) ==> exists|ts: Seq<TaskModel>|
            text@ == json_of_tasks(ts) && lines.deep_view() == listing_of(ts),
        forall|ts: Seq<TaskModel>| text@ == json_of_tasks(ts) ==> is_listing_of(r, ts),
{
    match crate::codec::decode_tasks(text) {
        LoadOutcome::EmptyStore => ListOutcome::NoTasksYet,
        LoadOutcome::Corrupt => ListOutcome::Corrupt,
        LoadOutcome::Loaded(v) => {
            let ghost dv = v.deep_view();
            let mut lines: Vec<String> = Vec::new();
            let mut i: usize = 0;
            while i < v.len()
                invariant
                    i <= v@.len(),
                    dv == v.deep_view(),
                    dv.len() == v@.len(),
                    lines@.len() == i,
                    forall|j: int| 0 <= j < i ==> lines@[j]@ == line_of(j, dv[j]),
                decreases v@.len() - i,
            {
                let l = render_line(i, &v[i]);
                proof {
                    assert(v@[i as int]@ == dv[i as int]);
                }
                lines.push(l);
                i += 1;
            }
            proof {
                assert(lines.deep_view() =~= listing_of(dv));
            }
            ListOutcome::Listing(lines)
        },
    }
}

// --- the add operation ---

/// What the add operation yields.
pub enum SaveOutcome {
    /// The new document text to write.
    Saved(String),
    /// The document was neither empty nor well formed; nothing is written.
    Corrupt,
}

/// Whether the outcome asks to write exactly this document text.
pub open spec fn is_saved_with(r: SaveOutcome, d: Seq<char>) -> bool {
    match r {
        SaveOutcome::Saved(out) => out@ == d,
        _ => false,
    }
}

/// The task the add operation builds from one line of input: the trimmed
/// text as the name, not yet completed.  An empty name is accepted.
pub open spec fn new_task_of(input: Seq<char>) -> TaskModel {
    TaskModel { name: crate::text::trim_spec(input), completed: false }
}

/// The add operation: appends a task named by the trimmed input to the end
/// of the list and yields the document to write.  An empty document gets a
/// fresh one-task list; on a corrupt document nothing is written and the
/// new task is lost.
pub fn add_task(text: &str, input: &str) -> (r: SaveOutcome)
    ensures
        text@.len() == 0 ==> is_saved_with(r, json_of_tasks(seq![new_task_of(input@)])),
        forall|ts: Seq<TaskModel>| text@ == json_of_tasks(ts) ==> is_saved_with(
            r,
            json_of_tasks(ts.push(new_task_of(input@))),
        ),
        r is Corrupt <==> (text@.len() != 0 && !(exists|ts: Seq<TaskModel>|
            text@ == json_of_tasks(ts))),
{
    let cs = crate::text::chars_of(input);
    let nm = crate::text::trim_chars(&cs);
    let name = crate::text::string_of(&nm);
    let t = Task::new(name);
    match crate::codec::decode_tasks(text) {
        LoadOutcome::EmptyStore => {
            let mut v: Vec<Task> = Vec::new();
            v.push(t);
            proof {
                assert(v.deep_view() =~= seq![new_task_of(input@)]);
            }
            SaveOutcome::Saved(crate::codec::encode_tasks(&v))
        },
        LoadOutcome::Corrupt => SaveOutcome::Corrupt,
        LoadOutcome::Loaded(mut v) => {
            let ghost dv = v.deep_view();
            v.push(t);
            proof {
                assert(v.deep_view() =~= dv.push(new_task_of(input@)));
            }
            SaveOutcome::Saved(crate::codec::encode_tasks(&v))
        },
    }
}

// --- toggling and deleting ---

/// `t` with its completion flag flipped.
pub open spec fn toggle_model(t: TaskModel) -> TaskModel {
    TaskModel { name: t.name, completed: !t.completed }
}

/// The list with the flag of the task at `k` flipped and every other task
/// unchanged.
pub open spec fn toggled(ts: Seq<TaskModel>, k: int) -> Seq<TaskModel> {
    ts.update(k, toggle_model(ts[k]))
}

/// Toggling the same in-range position twice restores the original list:
/// the flag returns to its old value and every other task is identical.
pub proof fn lemma_toggle_involutive(ts: Seq<TaskModel>, k: int)
    requires
        0 <= k < ts.len(),
    ensures
        toggled(toggled(ts, k), k) == ts,
{
    assert(toggled(toggled(ts, k), k) =~= ts);
}

/// Deleting an in-range position removes exactly that element: the length
/// drops by one, earlier tasks keep their places, and later tasks each move
/// up by one, keeping their relative order.
pub proof fn lemma_delete_removes_one(ts: Seq<TaskModel>, k: int)
    requires
        0 <= k < ts.len(),
    ensures
        ts.remove(k).len() == ts.len() - 1,
        forall|j: int| 0 <= j < k ==> ts.remove(k)[j] == ts[j],
        forall|j: int| k <= j < ts.len() - 1 ==> ts.remove(k)[j] == ts[j + 1],
{
}

/// What the toggle and delete operations yield.
pub enum MutateOutcome {
    /// The new document text to write.
    Saved(String),
    /// The input line was not a usable number; nothing is written.
    BadNumber(NumParseError),
    /// The document was empty: there are no tasks yet; nothing is written.
    EmptyStore,
    /// The line number is 0 or past the end of the list; nothing is
    /// written.
    OutOfRange,
    /// The document was neither empty nor well formed; nothing is written.
    Corrupt,
}

/// Whether the outcome asks to write exactly this document text.
pub open spec fn is_mutated_with(r: MutateOutcome, d: Seq<char>) -> bool {
    match r {
        MutateOutcome::Saved(out) => out@ == d,
        _ => false,
    }
}

/// The toggle operation: flips the completion flag of the task at the
/// given one-based line number and yields the document to write.  The
/// number is read before the document, so a bad number is reported even
/// when the document is empty or corrupt.
pub fn complete_task(text: &str, input: &str) -> (r: MutateOutcome)
    ensures
        ({
            let p = crate::num::parse_unsigned_spec(input@, usize::MAX as nat);
            &&& p matches Err(e) ==> r == MutateOutcome::BadNumber(e)
            &&& p matches Ok(n) ==> {
                &&& (r is EmptyStore <==> text@.len() == 0)
                &&& (forall|ts: Seq<TaskModel>| text@ == #[trigger] json_of_tasks(ts) ==> (if 1
                    <= n <= ts.len() {
                    is_mutated_with(r, json_of_tasks(toggled(ts, n - 1)))
                } else {
                    r is OutOfRange
                }))
                &&& (r is Corrupt <==> (text@.len() != 0 && !(exists|ts: Seq<TaskModel>|
                    text@ == json_of_tasks(ts))))
            }
        }),
{
    let n = match crate::num::parse_line_number(input) {
        Err(e) => {
            return MutateOutcome::BadNumber(e);
        },
        Ok(n) => n,
    };
    match crate::codec::decode_tasks(text) {
        LoadOutcome::EmptyStore => MutateOutcome::EmptyStore,
        LoadOutcome::Corrupt => MutateOutcome::Corrupt,
        LoadOutcome::Loaded(mut v) => {
            let ghost dv = v.deep_view();
            if n < 1 || n > v.len() {
                return MutateOutcome::OutOfRange;
            }
            let k = n - 1;
            let name = v[k].name.clone();
            let completed = v[k].completed;
            v[k] = Task { name, completed: !completed };
            proof {
                assert(v.deep_view() =~= toggled(dv, k as int));
            }
            MutateOutcome::Saved(crate::codec::encode_tasks(&v))
        },
    }
}

/// The delete operation: removes the task at the given one-based line
/// number, leaving the relative order of the rest unchanged, and yields the
/// document to write.  The number is read before the document is decoded.
pub fn delete_task(text: &str, input: &str) -> (r: MutateOutcome)
    ensures
        ({
            let p = crate::num::parse_unsigned_spec(input@, usize::MAX as nat);
            &&& p matches Err(e) ==> r == MutateOutcome::BadNumber(e)
            &&& p matches Ok(n) ==> {
                &&& (r is EmptyStore <==> text@.len() == 0)
                &&& (forall|ts: Seq<TaskModel>| text@ == #[trigger] json_of_tasks(ts) ==> (if 1
                    <= n <= ts.len() {
                    is_mutated_with(r, json_of_tasks(ts.remove(n - 1)))
                } else {
                    r is OutOfRange
                }))
                &&& (r is Corrupt <==> (text@.len() != 0 && !(exists|ts: Seq<TaskModel>|
                    text@ == json_of_tasks(ts))))
            }
        }),
{
    let n = match crate::num::parse_line_number(input) {
        Err(e) => {
            return MutateOutcome::BadNumber(e);
        },
        Ok(n) => n,
    };
    match crate::codec::decode_tasks(text) {
        LoadOutcome::EmptyStore => MutateOutcome::EmptyStore,
        LoadOutcome::Corrupt => MutateOutcome::Corrupt,
        LoadOutcome::Loaded(mut v) => {
            let ghost dv = v.deep_view();
            if n < 1 || n > v.len() {
                return MutateOutcome::OutOfRange;
            }
            let k = n - 1;
            v.remove(k);
            proof {
                assert(v.deep_view() =~= dv.remove(k as int));
            }
            MutateOutcome::Saved(crate::codec::encode_tasks(&v))
        },
    }
}

// --- the menu ---

/// The operation a menu choice stands for.
pub enum MenuAction {
    ListTasks,
    AddTask,
    CompleteTask,
    DeleteTask,
    Exit,
}

/// What reading a menu choice yields.
pub enum MenuOutcome {
    /// A valid choice.
    Action(MenuAction),
    /// The input line was not a usable number.
    BadNumber(NumParseError),
    /// A number outside the menu's range.
    OutOfRange,
}

/// The outcome a parsed menu number stands for.
pub open spec fn menu_outcome_of(n: int) -> MenuOutcome {
    if n == 0 {
        MenuOutcome::Action(MenuAction::ListTasks)
    } else if n == 1 {
        MenuOutcome::Action(MenuAction::AddTask)
    } else if n == 2 {
        MenuOutcome::Action(MenuAction::CompleteTask)
    } else if n == 3 {
        MenuOutcome::Action(MenuAction::DeleteTask)
    } else if n == 4 {
        MenuOutcome::Action(MenuAction::Exit)
    } else {
        MenuOutcome::OutOfRange
    }
}

/// Reads one line of input as a menu choice: an integer from 0 to 4, each
/// standing for its menu entry; any other number is out of range.
pub fn menu_choice(input: &str) -> (r: MenuOutcome)
    ensures
        ({
            let p = crate::num::parse_signed_spec(input@);
            &&& p matches Err(e) ==> r == MenuOutcome::BadNumber(e)
            &&& p matches Ok(n) ==> r == menu_outcome_of(n)
        }),
{
    match crate::num::parse_menu_number(input) {
        Err(e) => MenuOutcome::BadNumber(e),
        Ok(n) => {
            if n == 0 {
                MenuOutcome::Action(MenuAction::ListTasks)
            } else if n == 1 {
                MenuOutcome::Action(MenuAction::AddTask)
            } else if n == 2 {
                MenuOutcome::Action(MenuAction::CompleteTask)
            } else if n == 3 {
                MenuOutcome::Action(MenuAction::DeleteTask)
            } else if n == 4 {
                MenuOutcome::Action(MenuAction::Exit)
            } else {
                MenuOutcome::OutOfRange
            }
        },
    }
}

/// The document file name for a command-line argument: the given base name,
/// or `tasks` when none was given, with the `.json` suffix.
pub fn store_path(arg: Option<&str>) -> (r: String)
    ensures
        r@ == (match arg {
            Some(a) => a@,
            None => "tasks"@,
        }) + ".json"@,
{
    let mut s = String::new();
    match arg {
        Some(a) => s.append(a),
        None => s.append("tasks"),
    }
    s.append(".json");
    proof {
        assert(Seq::<char>::empty() + (match arg {
            Some(a) => a@,
            None => "tasks"@,
        }) + ".json"@ =~= (match arg {
            Some(a) => a@,
            None => "tasks"@,
        }) + ".json"@);
    }
    s
}

} // verus!
