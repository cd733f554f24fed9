//! The text shown to the user: decimal numbers, task lines and the messages
//! that report what a command did.

use crate::store::TaskStore;
use crate::task::{Task, TaskView};
use vstd::prelude::*;
use vstd::string::StringExecFns;

verus! {

/// The character that stands for the digit `d`.
pub open spec fn digit_char(d: nat) -> char
    recommends
        d < 10,
{
    if d == 0 {
        '0'
    } else if d == 1 {
        '1'
    } else if d == 2 {
        '2'
    } else if d == 3 {
        '3'
    } else if d == 4 {
        '4'
    } else if d == 5 {
        '5'
    } else if d == 6 {
        '6'
    } else if d == 7 {
        '7'
    } else if d == 8 {
        '8'
    } else {
        '9'
    }
}

/// `n` written in base ten, most significant digit first, without leading zeros.
pub open spec fn decimal(n: nat) -> Seq<char>
    decreases n,
{
    if n < 10 {
        seq![digit_char(n)]
    } else {
        decimal(n / 10).push(digit_char(n % 10))
    }
}

/// The digit that `c` stands for.
pub open spec fn digit_value(c: char) -> nat
    recommends
        exists|d: nat| d < 10 && digit_char(d) == c,
{
    if c == '1' {
        1
    } else if c == '2' {
        2
    } else if c == '3' {
        3
    } else if c == '4' {
        4
    } else if c == '5' {
        5
    } else if c == '6' {
        6
    } else if c == '7' {
        7
    } else if c == '8' {
        8
    } else if c == '9' {
        9
    } else {
        0
    }
}

/// The number that a row of digits denotes in base ten.
pub open spec fn decimal_value(digits: Seq<char>) -> nat
    decreases digits.len(),
{
    if digits.len() == 0 {
        0
    } else {
        decimal_value(digits.drop_last()) * 10 + digit_value(digits.last())
    }
}

/// `decimal(n)` is the usual notation of `n`: it is made of digits, reads
/// back as `n`, and starts with a zero only when `n` is zero.
pub proof fn lemma_decimal_reads_back(n: nat)
    ensures
        decimal(n).len() >= 1,
        forall|i: int|
            0 <= i < decimal(n).len() ==> exists|d: nat|
                d < 10 && digit_char(d) == #[trigger] decimal(n)[i],
        decimal_value(decimal(n)) == n,
        decimal(n)[0] == '0' <==> n == 0,
    decreases n,
{
    let last = if n < 10 {
        n
    } else {
        n % 10
    };
    assert(digit_value(digit_char(last)) == last);
    if n < 10 {
        assert(decimal(n).drop_last() == Seq::<char>::empty());
        assert(decimal_value(decimal(n).drop_last()) == 0);
    } else {
        lemma_decimal_reads_back(n / 10);
        let front = decimal(n / 10);
        assert(decimal(n).drop_last() == front);
        assert(decimal(n)[0] == front[0]);
        assert forall|i: int| 0 <= i < decimal(n).len() implies exists|d: nat|
            d < 10 && digit_char(d) == #[trigger] decimal(n)[i] by {
            if i < front.len() {
                assert(decimal(n)[i] == front[i]);
            } else {
                assert(last < 10 && digit_char(last) == decimal(n)[i]);
            }
        }
    }
}

/// Different numbers are written differently.
pub proof fn lemma_decimal_is_injective(a: nat, b: nat)
    requires
        decimal(a) == decimal(b),
    ensures
        a == b,
{
    lemma_decimal_reads_back(a);
    lemma_decimal_reads_back(b);
}

/// The line that shows one task: a checkbox, the id and the description.
pub open spec fn task_line(task: TaskView) -> Seq<char> {
    (if task.completed {
        "[x] "@
    } else {
        "[ ] "@
    }) + decimal(task.id) + " - "@ + task.description
}

/// What is shown in place of the tasks when there are none.
pub open spec fn no_tasks_text() -> Seq<char> {
    "No tasks yet."@
}

/// The listing of a store: one line per task in the store's order, or the
/// single line `no_tasks_text()` for an empty store.
pub open spec fn listing(tasks: Seq<TaskView>) -> Seq<Seq<char>> {
    if tasks.len() == 0 {
        seq![no_tasks_text()]
    } else {
        tasks.map_values(|t: TaskView| task_line(t))
    }
}

/// The report of a task added under `id`.
pub open spec fn added_text(id: nat) -> Seq<char> {
    "Added task with id "@ + decimal(id)
}

/// The report of a task deleted under `id`.
pub open spec fn deleted_text(id: nat) -> Seq<char> {
    "Deleted task with id "@ + decimal(id)
}

/// The report of a deletion that found no task under `id`.
pub open spec fn not_found_text(id: nat) -> Seq<char> {
    "Task with id "@ + decimal(id) + " not found."@
}

/// The texts of a list of lines, in the same order.
pub open spec fn line_views(lines: Seq<String>) -> Seq<Seq<char>> {
    lines.map_values(|l: String| l@)
}

fn digit_text(d: u32) -> (text: &'static str)
    requires
        d < 10,
    ensures
        text@ == seq![digit_char(d as nat)],
{
    proof {
        reveal_strlit("0");
        reveal_strlit("1");
        reveal_strlit("2");
        reveal_strlit("3");
        reveal_strlit("4");
        reveal_strlit("5");
        reveal_strlit("6");
        reveal_strlit("7");
        reveal_strlit("8");
        reveal_strlit("9");
    }
    let text = match d {
        0 => "0",
        1 => "1",
        2 => "2",
        3 => "3",
        4 => "4",
        5 => "5",
        6 => "6",
        7 => "7",
        8 => "8",
        _ => "9",
    };
    assert(text@ =~= seq![digit_char(d as nat)]);
    text
}

/// Writes `n` in base ten.
pub fn decimal_string(n: u32) -> (text: String)
    ensures
        text@ == decimal(n as nat),
    decreases n,
{
    if n < 10 {
        String::from_str(digit_text(n))
    } else {
        let mut text = decimal_string(n / 10);
        text.append(digit_text(n % 10));
        assert(text@ =~= decimal(n as nat));
        text
    }
}

/// Renders the line that shows `task`.
pub fn format_task(task: &Task) -> (line: String)
    ensures
        line@ == task_line(task@),
{
    let mut line = String::from_str(if task.completed { "[x] " } else { "[ ] " });
    line.append(decimal_string(task.id).as_str());
    line.append(" - ");
    line.append(task.description.as_str());
    line
}

/// The message that reports a task added under `id`.
pub fn added_message(id: u32) -> (message: String)
    ensures
        message@ == added_text(id as nat),
{
    let mut message = String::from_str("Added task with id ");
    message.append(decimal_string(id).as_str());
    message
}

/// The message that reports a task deleted under `id`.
pub fn deleted_message(id: u32) -> (message: String)
    ensures
        message@ == deleted_text(id as nat),
{
    let mut message = String::from_str("Deleted task with id ");
    message.append(decimal_string(id).as_str());
    message
}

/// The message that reports that no task carries `id`.
pub fn not_found_message(id: u32) -> (message: String)
    ensures
        message@ == not_found_text(id as nat),
{
    let mut message = String::from_str("Task with id ");
    message.append(decimal_string(id).as_str());
    message.append(" not found.");
    message
}

impl TaskStore {
    /// The lines that list the store.
    pub fn list(&self) -> (lines: Vec<String>)
        ensures
            line_views(lines@) == listing(self@),
    {
        let tasks = self.tasks();
        let mut lines: Vec<String> = Vec::new();
        if tasks.len() == 0 {
            lines.push(String::from_str("No tasks yet."));
            assert(line_views(lines@) =~= listing(self@));
            return lines;
        }
        let mut i: usize = 0;
        while i < tasks.len()
            invariant
                i <= tasks@.len(),
                lines@.len() == i,
                forall|k: int| 0 <= k < i ==> (#[trigger] lines@[k])@ == task_line(tasks@[k]@),
            decreases tasks@.len() - i,
        {
            lines.push(format_task(&tasks[i]));
            i += 1;
        }
        assert(line_views(lines@) =~= listing(self@));
        lines
    }
}

} // verus!
