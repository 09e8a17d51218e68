//! The markdown codec: serializes a task list into a small markdown
//! subset, and parses that subset back into tasks.
//!
//! The format, line by line: a heading (one to six `#` then a space) names
//! a status section; `- ` starts a task; `    > ` carries the task's
//! description; `    * [ ] ` and `    * [x] ` carry its subtasks. Lines
//! that match none of these are ignored. Writing groups the tasks into the
//! three fixed sections Todo, Doing, Done.

use vstd::prelude::*;
use vstd::string::StrSliceExecFns;
use vstd::string::StringExecFns;

use crate::store::views_of;
use crate::task::Status;
use crate::task::SubtaskView;
use crate::task::Task;
use crate::task::TaskView;

verus! {

// ---------------------------------------------------------------------
// Markers of the format.
// ---------------------------------------------------------------------
pub open spec fn newline() -> Seq<char> {
    "\n"@
}

pub open spec fn task_prefix() -> Seq<char> {
    "- "@
}

pub open spec fn desc_prefix() -> Seq<char> {
    "    > "@
}

pub open spec fn sub_open_prefix() -> Seq<char> {
    "    * [ ] "@
}

pub open spec fn sub_done_prefix() -> Seq<char> {
    "    * [x] "@
}

/// The heading line written for a status section.
pub open spec fn section_heading(st: Status) -> Seq<char> {
    match st {
        Status::Todo => "## Todo"@,
        Status::Doing => "## Doing"@,
        Status::Done => "## Done"@,
    }
}

/// No character of the sequence is a line break.
pub open spec fn no_newline(s: Seq<char>) -> bool {
    forall|i: int| 0 <= i < s.len() ==> s[i] != '\n'
}

/// The concrete characters of every marker, in one place.
pub proof fn lemma_marker_chars()
    ensures
        newline() =~= seq!['\n'],
        task_prefix() =~= seq!['-', ' '],
        desc_prefix() =~= seq![' ', ' ', ' ', ' ', '>', ' '],
        sub_open_prefix() =~= seq![' ', ' ', ' ', ' ', '*', ' ', '[', ' ', ']', ' '],
        sub_done_prefix() =~= seq![' ', ' ', ' ', ' ', '*', ' ', '[', 'x', ']', ' '],
        section_heading(Status::Todo) =~= seq!['#', '#', ' ', 'T', 'o', 'd', 'o'],
        section_heading(Status::Doing) =~= seq!['#', '#', ' ', 'D', 'o', 'i', 'n', 'g'],
        section_heading(Status::Done) =~= seq!['#', '#', ' ', 'D', 'o', 'n', 'e'],
{
    reveal_strlit("\n");
    reveal_strlit("- ");
    reveal_strlit("    > ");
    reveal_strlit("    * [ ] ");
    reveal_strlit("    * [x] ");
    reveal_strlit("## Todo");
    reveal_strlit("## Doing");
    reveal_strlit("## Done");
}

// ---------------------------------------------------------------------
// Lines of a document.
// ---------------------------------------------------------------------
/// Joins lines, terminating each with a line break.
pub open spec fn unlines(ls: Seq<Seq<char>>) -> Seq<char>
    decreases ls.len(),
{
    if ls.len() == 0 {
        Seq::empty()
    } else {
        ls[0] + newline() + unlines(ls.drop_first())
    }
}

/// Splits a text at line breaks. A text of n breaks has n + 1 lines; in
/// particular a text ending in a break ends with an empty line.
pub open spec fn split_lines(s: Seq<char>) -> Seq<Seq<char>>
    decreases s.len(),
{
    if s.len() == 0 {
        seq![Seq::<char>::empty()]
    } else if s[0] == '\n' {
        seq![Seq::<char>::empty()] + split_lines(s.drop_first())
    } else {
        let rest = split_lines(s.drop_first());
        seq![seq![s[0]] + rest[0]] + rest.drop_first()
    }
}

pub proof fn lemma_split_lines_nonempty(s: Seq<char>)
    ensures
        split_lines(s).len() >= 1,
    decreases s.len(),
{
    if s.len() > 0 {
        lemma_split_lines_nonempty(s.drop_first());
    }
}

/// Joining distributes over concatenation of line lists.
pub proof fn lemma_unlines_append(a: Seq<Seq<char>>, b: Seq<Seq<char>>)
    ensures
        unlines(a + b) == unlines(a) + unlines(b),
    decreases a.len(),
{
    if a.len() == 0 {
        assert(a + b =~= b);
        assert(unlines(a) + unlines(b) =~= unlines(b));
    } else {
        assert((a + b).drop_first() =~= a.drop_first() + b);
        lemma_unlines_append(a.drop_first(), b);
        assert(a[0] + newline() + (unlines(a.drop_first()) + unlines(b)) =~= (a[0] + newline()
            + unlines(a.drop_first())) + unlines(b));
    }
}

/// Splitting after a break-free first line peels that line off.
pub proof fn lemma_split_lines_step(p: Seq<char>, s: Seq<char>)
    requires
        no_newline(p),
    ensures
        split_lines(p + newline() + s) == seq![p] + split_lines(s),
    decreases p.len(),
{
    lemma_marker_chars();
    if p.len() == 0 {
        assert(p + newline() + s =~= seq!['\n'] + s);
        assert((seq!['\n'] + s)[0] == '\n');
        assert((seq!['\n'] + s).drop_first() =~= s);
        assert(p =~= Seq::<char>::empty());
        assert(seq![p] + split_lines(s) =~= seq![Seq::<char>::empty()] + split_lines(s));
    } else {
        let w = p + newline() + s;
        assert(w[0] == p[0]);
        assert(w[0] != '\n');
        assert(w.drop_first() =~= p.drop_first() + newline() + s);
        lemma_split_lines_step(p.drop_first(), s);
        let rest = split_lines(w.drop_first());
        assert(rest == seq![p.drop_first()] + split_lines(s));
        lemma_split_lines_nonempty(s);
        assert(rest[0] == p.drop_first());
        assert(seq![w[0]] + rest[0] =~= p);
        assert(rest.drop_first() =~= split_lines(s));
        assert(split_lines(w) =~= seq![p] + split_lines(s));
    }
}

/// Splitting a break-free text yields that text as the single line.
pub proof fn lemma_split_lines_single(s: Seq<char>)
    requires
        no_newline(s),
    ensures
        split_lines(s) == seq![s],
    decreases s.len(),
{
    if s.len() == 0 {
        assert(s =~= Seq::<char>::empty());
    } else {
        lemma_split_lines_single(s.drop_first());
        let rest = split_lines(s.drop_first());
        assert(rest[0] == s.drop_first());
        assert(seq![s[0]] + rest[0] =~= s);
        assert(split_lines(s) =~= seq![s]);
    }
}

/// Splitting undoes joining, up to the final empty line, when no line
/// holds a break.
pub proof fn lemma_split_unlines(ls: Seq<Seq<char>>)
    requires
        forall|i: int| 0 <= i < ls.len() ==> no_newline(#[trigger] ls[i]),
    ensures
        split_lines(unlines(ls)) == ls + seq![Seq::<char>::empty()],
    decreases ls.len(),
{
    if ls.len() == 0 {
        assert(unlines(ls) =~= Seq::<char>::empty());
        assert(split_lines(unlines(ls)) =~= ls + seq![Seq::<char>::empty()]);
    } else {
        lemma_split_unlines(ls.drop_first());
        lemma_split_lines_step(ls[0], unlines(ls.drop_first()));
        assert(seq![ls[0]] + (ls.drop_first() + seq![Seq::<char>::empty()]) =~= ls + seq![
            Seq::<char>::empty(),
        ]);
    }
}

// ---------------------------------------------------------------------
// What the encoder writes, line by line.
// ---------------------------------------------------------------------
/// The checklist line of one subtask.
pub open spec fn subtask_line(s: SubtaskView) -> Seq<char> {
    (if s.status {
        sub_done_prefix()
    } else {
        sub_open_prefix()
    }) + s.name
}

/// The checklist lines of a task's subtasks, in order.
pub open spec fn sub_lines(subs: Seq<SubtaskView>) -> Seq<Seq<char>> {
    Seq::new(subs.len(), |i: int| subtask_line(subs[i]))
}

/// The lines of one task: its name line, its description line when the
/// description is non-empty, then one line per subtask.
pub open spec fn task_lines(t: TaskView) -> Seq<Seq<char>> {
    seq![task_prefix() + t.name] + (if t.description.len() == 0 {
        Seq::<Seq<char>>::empty()
    } else {
        seq![desc_prefix() + t.description]
    }) + sub_lines(t.subtasks)
}

/// The lines of a row of tasks, in order.
pub open spec fn tasks_lines(ts: Seq<TaskView>) -> Seq<Seq<char>>
    decreases ts.len(),
{
    if ts.len() == 0 {
        Seq::empty()
    } else {
        task_lines(ts[0]) + tasks_lines(ts.drop_first())
    }
}

/// The tasks of one status, keeping their relative order.
pub open spec fn matching(ts: Seq<TaskView>, st: Status) -> Seq<TaskView>
    decreases ts.len(),
{
    if ts.len() == 0 {
        Seq::empty()
    } else if ts[0].status == st {
        seq![ts[0]] + matching(ts.drop_first(), st)
    } else {
        matching(ts.drop_first(), st)
    }
}

/// The lines of one status section: the heading, then the tasks of that
/// status.
pub open spec fn section_lines(ts: Seq<TaskView>, st: Status) -> Seq<Seq<char>> {
    seq![section_heading(st)] + tasks_lines(matching(ts, st))
}

/// The lines of the whole document: the three sections in fixed order,
/// a blank line between one section and the next.
pub open spec fn document_lines(ts: Seq<TaskView>) -> Seq<Seq<char>> {
    section_lines(ts, Status::Todo) + seq![Seq::<char>::empty()] + section_lines(ts, Status::Doing)
        + seq![Seq::<char>::empty()] + section_lines(ts, Status::Done)
}

/// The serialized form of a task list.
pub open spec fn encode_spec(ts: Seq<TaskView>) -> Seq<char> {
    unlines(document_lines(ts))
}

// ---------------------------------------------------------------------
// What the decoder reads, line by line.
// ---------------------------------------------------------------------
/// Whether `l` starts with the prefix `p`.
pub open spec fn starts_with(l: Seq<char>, p: Seq<char>) -> bool {
    l.len() >= p.len() && l.take(p.len() as int) == p
}

/// How many `#` characters the line starts with.
pub open spec fn hash_prefix_len(l: Seq<char>) -> int
    decreases l.len(),
{
    if l.len() == 0 || l[0] != '#' {
        0
    } else {
        1 + hash_prefix_len(l.drop_first())
    }
}

/// A heading: one to six `#`, then a space.
pub open spec fn is_heading(l: Seq<char>) -> bool {
    let k = hash_prefix_len(l);
    1 <= k <= 6 && k < l.len() && l[k] == ' '
}

/// The text of a heading: what follows the space.
pub open spec fn heading_text(l: Seq<char>) -> Seq<char> {
    l.skip(hash_prefix_len(l) + 1)
}

/// Whether two characters are equal up to ASCII case.
pub open spec fn eq_ic(a: char, b: char) -> bool {
    ||| a == b
    ||| (65 <= a as int <= 90 && b as int == a as int + 32)
    ||| (65 <= b as int <= 90 && a as int == b as int + 32)
}

/// Whether two texts are equal up to ASCII case.
pub open spec fn seq_eq_ic(a: Seq<char>, b: Seq<char>) -> bool {
    a.len() == b.len() && forall|i: int| 0 <= i < a.len() ==> eq_ic(a[i], #[trigger] b[i])
}

/// The status a heading selects: a case-insensitive match against the
/// three section names, anything else falling back to Todo.
pub open spec fn status_of_heading(text: Seq<char>) -> Status {
    if seq_eq_ic(text, "Todo"@) {
        Status::Todo
    } else if seq_eq_ic(text, "Doing"@) {
        Status::Doing
    } else if seq_eq_ic(text, "Done"@) {
        Status::Done
    } else {
        Status::Todo
    }
}

/// The id the decoder assigns to the next task: sequential by load
/// order, wrapping at the width of an id.
pub open spec fn next_load_id(count: int) -> u16 {
    (count % 0x10000) as u16
}

/// The decoder's state: the status context and the tasks read so far.
#[verifier::ext_equal]
pub struct DecodeState {
    pub status: Status,
    pub tasks: Seq<TaskView>,
}

impl DecodeState {
    /// The state before any line is read: context Todo, no tasks.
    pub open spec fn initial() -> DecodeState {
        DecodeState { status: Status::Todo, tasks: Seq::empty() }
    }
}

/// The task a name line creates: the rest of the line as name, an empty
/// description, the current status context, the next sequential id.
pub open spec fn fresh_task(name: Seq<char>, st: Status, count: int) -> TaskView {
    TaskView {
        name,
        description: Seq::empty(),
        status: st,
        id: next_load_id(count),
        due_date: Seq::empty(),
        subtasks: Seq::empty(),
    }
}

/// One line read by the decoder. A heading resets the status context; a
/// task line starts a task; description and subtask lines extend the most
/// recently started task and are ignored before any task; every other
/// line is ignored.
pub open spec fn line_step(s: DecodeState, l: Seq<char>) -> DecodeState {
    if is_heading(l) {
        DecodeState { status: status_of_heading(heading_text(l)), tasks: s.tasks }
    } else if starts_with(l, task_prefix()) {
        DecodeState {
            status: s.status,
            tasks: s.tasks.push(fresh_task(l.skip(2), s.status, s.tasks.len() as int)),
        }
    } else if starts_with(l, desc_prefix()) {
        if s.tasks.len() == 0 {
            s
        } else {
            let last = s.tasks[s.tasks.len() - 1];
            DecodeState {
                status: s.status,
                tasks: s.tasks.update(
                    s.tasks.len() - 1,
                    TaskView { description: last.description + l.skip(6), ..last },
                ),
            }
        }
    } else if starts_with(l, sub_open_prefix()) {
        if s.tasks.len() == 0 {
            s
        } else {
            let last = s.tasks[s.tasks.len() - 1];
            DecodeState {
                status: s.status,
                tasks: s.tasks.update(
                    s.tasks.len() - 1,
                    TaskView {
                        subtasks: last.subtasks.push(
                            SubtaskView { name: l.skip(10), status: false },
                        ),
                        ..last
                    },
                ),
            }
        }
    } else if starts_with(l, sub_done_prefix()) {
        if s.tasks.len() == 0 {
            s
        } else {
            let last = s.tasks[s.tasks.len() - 1];
            DecodeState {
                status: s.status,
                tasks: s.tasks.update(
                    s.tasks.len() - 1,
                    TaskView {
                        subtasks: last.subtasks.push(SubtaskView { name: l.skip(10), status: true }),
                        ..last
                    },
                ),
            }
        }
    } else {
        s
    }
}

/// The decoder folded over a list of lines.
pub open spec fn decode_lines(s: DecodeState, ls: Seq<Seq<char>>) -> DecodeState
    decreases ls.len(),
{
    if ls.len() == 0 {
        s
    } else {
        decode_lines(line_step(s, ls[0]), ls.drop_first())
    }
}

/// The tasks parsed from a text.
pub open spec fn decode_spec(text: Seq<char>) -> Seq<TaskView> {
    decode_lines(DecodeState::initial(), split_lines(text)).tasks
}

// ---------------------------------------------------------------------
// Small algebra of the line builders.
// ---------------------------------------------------------------------
pub proof fn lemma_unlines_single(l: Seq<char>)
    ensures
        unlines(seq![l]) == l + newline(),
{
    assert(seq![l].drop_first() =~= Seq::<Seq<char>>::empty());
    assert(unlines(Seq::<Seq<char>>::empty()) == Seq::<char>::empty());
    assert(unlines(seq![l]) =~= l + newline());
}

pub proof fn lemma_unlines_push(ls: Seq<Seq<char>>, l: Seq<char>)
    ensures
        unlines(ls.push(l)) == unlines(ls) + l + newline(),
{
    assert(ls.push(l) =~= ls + seq![l]);
    lemma_unlines_append(ls, seq![l]);
    lemma_unlines_single(l);
    assert(unlines(ls) + (l + newline()) =~= unlines(ls) + l + newline());
}

pub proof fn lemma_tasks_lines_single(t: TaskView)
    ensures
        tasks_lines(seq![t]) == task_lines(t),
{
    assert(seq![t].drop_first() =~= Seq::<TaskView>::empty());
    assert(tasks_lines(Seq::<TaskView>::empty()) == Seq::<Seq<char>>::empty());
    assert(tasks_lines(seq![t]) =~= task_lines(t));
}

pub proof fn lemma_tasks_lines_append(a: Seq<TaskView>, b: Seq<TaskView>)
    ensures
        tasks_lines(a + b) == tasks_lines(a) + tasks_lines(b),
    decreases a.len(),
{
    if a.len() == 0 {
        assert(a + b =~= b);
        assert(tasks_lines(a) + tasks_lines(b) =~= tasks_lines(b));
    } else {
        assert((a + b).drop_first() =~= a.drop_first() + b);
        lemma_tasks_lines_append(a.drop_first(), b);
        assert(task_lines(a[0]) + (tasks_lines(a.drop_first()) + tasks_lines(b)) =~= (task_lines(
            a[0],
        ) + tasks_lines(a.drop_first())) + tasks_lines(b));
    }
}

pub proof fn lemma_matching_push(a: Seq<TaskView>, x: TaskView, st: Status)
    ensures
        matching(a.push(x), st) == matching(a, st) + (if x.status == st {
            seq![x]
        } else {
            Seq::<TaskView>::empty()
        }),
    decreases a.len(),
{
    if a.len() == 0 {
        assert(a.push(x).drop_first() =~= Seq::<TaskView>::empty());
        assert(a.push(x)[0] == x);
        assert(matching(Seq::<TaskView>::empty(), st) == Seq::<TaskView>::empty());
        if x.status == st {
            assert(matching(a.push(x), st) =~= matching(a, st) + seq![x]);
        } else {
            assert(matching(a.push(x), st) =~= matching(a, st) + Seq::<TaskView>::empty());
        }
    } else {
        assert(a.push(x)[0] == a[0]);
        assert(a.push(x).drop_first() =~= a.drop_first().push(x));
        lemma_matching_push(a.drop_first(), x, st);
        if a[0].status == st {
            if x.status == st {
                assert(seq![a[0]] + (matching(a.drop_first(), st) + seq![x]) =~= (seq![a[0]]
                    + matching(a.drop_first(), st)) + seq![x]);
            } else {
                assert(seq![a[0]] + (matching(a.drop_first(), st)
                    + Seq::<TaskView>::empty()) =~= (seq![a[0]] + matching(a.drop_first(), st))
                    + Seq::<TaskView>::empty());
            }
        }
    }
}

/// Folding distributes over concatenation of line lists.
pub proof fn lemma_decode_lines_append(s: DecodeState, a: Seq<Seq<char>>, b: Seq<Seq<char>>)
    ensures
        decode_lines(s, a + b) == decode_lines(decode_lines(s, a), b),
    decreases a.len(),
{
    if a.len() == 0 {
        assert(a + b =~= b);
    } else {
        assert((a + b).drop_first() =~= a.drop_first() + b);
        assert((a + b)[0] == a[0]);
        lemma_decode_lines_append(line_step(s, a[0]), a.drop_first(), b);
    }
}

// ---------------------------------------------------------------------
// The encoder.
// ---------------------------------------------------------------------
/// Appends the lines of one task to the output.
fn push_task_text(out: &mut String, t: &Task)
    ensures
        final(out)@ == old(out)@ + unlines(task_lines(t@)),
{
    let ghost base = out@;
    out.append("- ");
    out.append(t.name.as_str());
    out.append("\n");
    proof {
        assert(out@ =~= base + (task_prefix() + t@.name + newline()));
    }
    if !t.description.as_str().is_empty() {
        out.append("    > ");
        out.append(t.description.as_str());
        out.append("\n");
        proof {
            assert(out@ =~= base + (task_prefix() + t@.name + newline()) + (desc_prefix()
                + t@.description + newline()));
        }
    }
    let ghost mid = out@;
    let mut i: usize = 0;
    while i < t.subtasks.len()
        invariant
            i <= t@.subtasks.len(),
            out@ == mid + unlines(sub_lines(t@.subtasks.take(i as int))),
        decreases t@.subtasks.len() - i,
    {
        let ghost before = out@;
        if t.subtasks[i].status {
            out.append("    * [x] ");
        } else {
            out.append("    * [ ] ");
        }
        out.append(t.subtasks[i].name.as_str());
        out.append("\n");
        proof {
            assert(out@ =~= before + subtask_line(t@.subtasks[i as int]) + newline());
            assert(sub_lines(t@.subtasks.take(i + 1)) =~= sub_lines(
                t@.subtasks.take(i as int),
            ).push(subtask_line(t@.subtasks[i as int])));
            lemma_unlines_push(
                sub_lines(t@.subtasks.take(i as int)),
                subtask_line(t@.subtasks[i as int]),
            );
            assert(out@ =~= mid + unlines(sub_lines(t@.subtasks.take(i + 1))));
        }
        i = i + 1;
    }
    proof {
        assert(t@.subtasks.take(t@.subtasks.len() as int) =~= t@.subtasks);
        let name_line = seq![task_prefix() + t@.name];
        let desc_ls = if t@.description.len() == 0 {
            Seq::<Seq<char>>::empty()
        } else {
            seq![desc_prefix() + t@.description]
        };
        lemma_unlines_append(name_line + desc_ls, sub_lines(t@.subtasks));
        lemma_unlines_append(name_line, desc_ls);
        lemma_unlines_single(task_prefix() + t@.name);
        if t@.description.len() > 0 {
            lemma_unlines_single(desc_prefix() + t@.description);
        } else {
            assert(unlines(desc_ls) =~= Seq::<char>::empty());
        }
        assert(task_lines(t@) == (name_line + desc_ls) + sub_lines(t@.subtasks));
        assert(out@ =~= old(out)@ + unlines(task_lines(t@)));
    }
}

/// Appends one status section to the output: the heading, then the
/// tasks of that status in order.
fn push_section_text(out: &mut String, tasks: &Vec<Task>, st: Status)
    ensures
        final(out)@ == old(out)@ + unlines(section_lines(views_of(tasks@), st)),
{
    match st {
        Status::Todo => out.append("## Todo"),
        Status::Doing => out.append("## Doing"),
        Status::Done => out.append("## Done"),
    }
    out.append("\n");
    let ghost head = old(out)@ + section_heading(st) + newline();
    proof {
        assert(out@ =~= head);
    }
    let ghost vs = views_of(tasks@);
    let mut i: usize = 0;
    while i < tasks.len()
        invariant
            i <= vs.len(),
            vs == views_of(tasks@),
            vs.len() == tasks@.len(),
            out@ == head + unlines(tasks_lines(matching(vs.take(i as int), st))),
        decreases vs.len() - i,
    {
        let ghost before = out@;
        proof {
            assert(vs[i as int] == tasks@[i as int]@);
            assert(vs.take(i + 1) =~= vs.take(i as int).push(vs[i as int]));
            lemma_matching_push(vs.take(i as int), vs[i as int], st);
        }
        if tasks[i].status == st {
            push_task_text(out, &tasks[i]);
            proof {
                lemma_tasks_lines_append(matching(vs.take(i as int), st), seq![vs[i as int]]);
                assert(matching(vs.take(i + 1), st) == matching(vs.take(i as int), st) + seq![
                    vs[i as int],
                ]);
                lemma_tasks_lines_single(vs[i as int]);
                lemma_unlines_append(
                    tasks_lines(matching(vs.take(i as int), st)),
                    task_lines(vs[i as int]),
                );
                assert(out@ =~= head + unlines(tasks_lines(matching(vs.take(i + 1), st))));
            }
        } else {
            proof {
                assert(matching(vs.take(i + 1), st) =~= matching(vs.take(i as int), st));
                assert(out@ =~= head + unlines(tasks_lines(matching(vs.take(i + 1), st))));
            }
        }
        i = i + 1;
    }
    proof {
        assert(vs.take(vs.len() as int) =~= vs);
        let heading_ls = seq![section_heading(st)];
        let body_ls = tasks_lines(matching(vs, st));
        lemma_unlines_append(heading_ls, body_ls);
        lemma_unlines_single(section_heading(st));
        assert(section_lines(vs, st) == heading_ls + body_ls);
        assert(out@ =~= old(out)@ + unlines(section_lines(vs, st)));
    }
}

/// Serializes a task list: the three fixed sections Todo, Doing, Done,
/// each holding its tasks in their stored order.
pub fn encode(tasks: &Vec<Task>) -> (r: String)
    ensures
        r@ == encode_spec(views_of(tasks@)),
{
    let mut out = String::new();
    push_section_text(&mut out, tasks, Status::Todo);
    out.append("\n");
    push_section_text(&mut out, tasks, Status::Doing);
    out.append("\n");
    push_section_text(&mut out, tasks, Status::Done);
    proof {
        let vs = views_of(tasks@);
        let s1 = section_lines(vs, Status::Todo);
        let s2 = section_lines(vs, Status::Doing);
        let s3 = section_lines(vs, Status::Done);
        let blank = seq![Seq::<char>::empty()];
        lemma_unlines_single(Seq::<char>::empty());
        assert(unlines(blank) =~= newline());
        lemma_unlines_append(s1 + blank + s2 + blank, s3);
        lemma_unlines_append(s1 + blank + s2, blank);
        lemma_unlines_append(s1 + blank, s2);
        lemma_unlines_append(s1, blank);
        assert(out@ =~= encode_spec(vs));
    }
    out
}

// ---------------------------------------------------------------------
// The decoder.
// ---------------------------------------------------------------------
proof fn lemma_hash_prefix_nonneg(l: Seq<char>)
    ensures
        hash_prefix_len(l) >= 0,
    decreases l.len(),
{
    if l.len() > 0 && l[0] == '#' {
        lemma_hash_prefix_nonneg(l.drop_first());
    }
}

/// Leading `#` characters up to `k` pin the hash prefix length from below.
proof fn lemma_hash_prefix_lower(l: Seq<char>, k: int)
    requires
        0 <= k <= l.len(),
        forall|j: int| 0 <= j < k ==> l[j] == '#',
    ensures
        hash_prefix_len(l) >= k,
    decreases k,
{
    if k > 0 {
        assert(l[0] == '#');
        assert(forall|j: int| 0 <= j < k - 1 ==> l.drop_first()[j] == l[j + 1]);
        lemma_hash_prefix_lower(l.drop_first(), k - 1);
        assert(hash_prefix_len(l) == 1 + hash_prefix_len(l.drop_first()));
    } else {
        lemma_hash_prefix_nonneg(l);
    }
}

/// A `#` prefix of length `k` followed by the end or a non-`#` character
/// pins the hash prefix length exactly.
proof fn lemma_hash_prefix_exact(l: Seq<char>, k: int)
    requires
        0 <= k <= l.len(),
        forall|j: int| 0 <= j < k ==> l[j] == '#',
        k == l.len() || l[k] != '#',
    ensures
        hash_prefix_len(l) == k,
    decreases k,
{
    if k == 0 {
    } else {
        assert(forall|j: int| 0 <= j < k - 1 ==> l.drop_first()[j] == l[j + 1]);
        lemma_hash_prefix_exact(l.drop_first(), k - 1);
    }
}

/// Whether two characters match up to ASCII case.
fn eq_ic_char(a: char, b: char) -> (r: bool)
    ensures
        r == eq_ic(a, b),
{
    let au = a as u32;
    let bu = b as u32;
    a == b || (au >= 65 && au <= 90 && bu == au + 32) || (bu >= 65 && bu <= 90 && au == bu + 32)
}

/// Whether `text[ws..we)` matches the target word up to ASCII case.
fn word_eq_ic(text: &str, ws: usize, we: usize, target: &str) -> (r: bool)
    requires
        ws <= we <= text@.len(),
    ensures
        r == seq_eq_ic(text@.subrange(ws as int, we as int), target@),
{
    let ghost w = text@.subrange(ws as int, we as int);
    let tlen = target.unicode_len();
    if we - ws != tlen {
        return false;
    }
    let mut i: usize = 0;
    while i < tlen
        invariant
            i <= tlen,
            tlen == target@.len(),
            tlen == we - ws,
            ws <= we <= text@.len(),
            w == text@.subrange(ws as int, we as int),
            forall|j: int| 0 <= j < i ==> eq_ic(w[j], target@[j]),
        decreases tlen - i,
    {
        let a = text.get_char(ws + i);
        let b = target.get_char(i);
        if !eq_ic_char(a, b) {
            proof {
                assert(w[i as int] == text@[ws + i]);
                assert(!eq_ic(w[i as int], target@[i as int]));
            }
            return false;
        }
        proof {
            assert(w[i as int] == text@[ws + i]);
        }
        i = i + 1;
    }
    true
}

/// Whether `text[ls..le)` starts with the marker `p`.
fn has_prefix_at(text: &str, ls: usize, le: usize, p: &str) -> (r: bool)
    requires
        ls <= le <= text@.len(),
    ensures
        r == starts_with(text@.subrange(ls as int, le as int), p@),
{
    let ghost l = text@.subrange(ls as int, le as int);
    let plen = p.unicode_len();
    if le - ls < plen {
        return false;
    }
    let mut i: usize = 0;
    while i < plen
        invariant
            i <= plen,
            plen == p@.len(),
            plen <= le - ls,
            ls <= le <= text@.len(),
            l == text@.subrange(ls as int, le as int),
            forall|j: int| 0 <= j < i ==> l[j] == p@[j],
        decreases plen - i,
    {
        let a = text.get_char(ls + i);
        let b = p.get_char(i);
        proof {
            assert(l[i as int] == text@[ls + i]);
        }
        if a != b {
            proof {
                assert(l.take(plen as int)[i as int] != p@[i as int]);
            }
            return false;
        }
        i = i + 1;
    }
    proof {
        assert(l.take(plen as int) =~= p@);
    }
    true
}

/// The decoder's working state: the status context and the tasks read
/// so far.
struct Parser {
    status: Status,
    tasks: Vec<Task>,
}

impl View for Parser {
    type V = DecodeState;

    closed spec fn view(&self) -> DecodeState {
        DecodeState { status: self.status, tasks: views_of(self.tasks@) }
    }
}

impl Parser {
    /// Reads one line, `text[ls..le)`, as `line_step` describes.
    fn step_line(&mut self, text: &str, ls: usize, le: usize)
        requires
            ls <= le <= text@.len(),
        ensures
            final(self)@ == line_step(old(self)@, text@.subrange(ls as int, le as int)),
    {
        let ghost l = text@.subrange(ls as int, le as int);
        // Count the leading '#' characters, up to one past the deepest
        // heading level.
        let mut k: usize = 0;
        while ls + k < le && k < 7 && text.get_char(ls + k) == '#'
            invariant
                ls <= le <= text@.len(),
                l == text@.subrange(ls as int, le as int),
                k <= 7,
                ls + k <= le,
                forall|j: int| 0 <= j < k ==> l[j] == '#',
            decreases le - (ls + k),
        {
            proof {
                assert(l[k as int] == text@[ls + k]);
            }
            k = k + 1;
        }
        if k >= 1 && k <= 6 && ls + k < le && text.get_char(ls + k) == ' ' {
            // A heading: the text after the space picks the new status.
            proof {
                assert(l[k as int] == text@[ls + k]);
                lemma_hash_prefix_exact(l, k as int);
                assert(is_heading(l));
            }
            let new_status = if word_eq_ic(text, ls + k + 1, le, "Todo") {
                Status::Todo
            } else if word_eq_ic(text, ls + k + 1, le, "Doing") {
                Status::Doing
            } else if word_eq_ic(text, ls + k + 1, le, "Done") {
                Status::Done
            } else {
                Status::Todo
            };
            self.status = new_status;
            proof {
                assert(heading_text(l) =~= text@.subrange(ls + k + 1, le as int));
                assert(self@ =~~= line_step(old(self)@, l));
            }
            return ;
        }
        proof {
            if k == 7 {
                lemma_hash_prefix_lower(l, 7);
            } else if ls + k == le {
                lemma_hash_prefix_exact(l, k as int);
            } else {
                assert(l[k as int] == text@[ls + k]);
                assert(l[k as int] != '#');
                lemma_hash_prefix_exact(l, k as int);
            }
            assert(!is_heading(l));
            lemma_marker_chars();
        }
        if has_prefix_at(text, ls, le, "- ") {
            // A task line: the rest of the line is the name.
            let name = String::from_str(text.substring_char(ls + 2, le));
            let id: u16 = (self.tasks.len() % 0x10000) as u16;
            let status = self.status;
            let task = Task::new(name, String::new(), status, Some(id));
            self.tasks.push(task);
            proof {
                assert(name@ =~= l.skip(2));
                assert(task@ =~~= fresh_task(l.skip(2), old(self)@.status, old(self)@.tasks.len() as int));
                assert(views_of(self.tasks@) =~~= views_of(old(self).tasks@).push(task@));
                assert(self@ =~~= line_step(old(self)@, l));
            }
        } else if has_prefix_at(text, ls, le, "    > ") {
            // A description line: appended to the last task, if any.
            let n = self.tasks.len();
            if n > 0 {
                let d = text.substring_char(ls + 6, le);
                self.tasks[n - 1].add_description(d);
                proof {
                    assert(d@ =~= l.skip(6));
                    let last = old(self)@.tasks[n - 1];
                    assert(views_of(self.tasks@) =~~= old(self)@.tasks.update(
                        n - 1,
                        TaskView { description: last.description + l.skip(6), ..last },
                    ));
                    assert(self@ =~~= line_step(old(self)@, l));
                }
            } else {
                proof {
                    assert(self@ =~~= line_step(old(self)@, l));
                }
            }
        } else if has_prefix_at(text, ls, le, "    * [ ] ") {
            let n = self.tasks.len();
            if n > 0 {
                let name = String::from_str(text.substring_char(ls + 10, le));
                self.tasks[n - 1].add_subtask(name, false);
                proof {
                    assert(name@ =~= l.skip(10));
                    let last = old(self)@.tasks[n - 1];
                    assert(views_of(self.tasks@) =~~= old(self)@.tasks.update(
                        n - 1,
                        TaskView {
                            subtasks: last.subtasks.push(
                                SubtaskView { name: l.skip(10), status: false },
                            ),
                            ..last
                        },
                    ));
                    assert(self@ =~~= line_step(old(self)@, l));
                }
            } else {
                proof {
                    assert(self@ =~~= line_step(old(self)@, l));
                }
            }
        } else if has_prefix_at(text, ls, le, "    * [x] ") {
            let n = self.tasks.len();
            if n > 0 {
                let name = String::from_str(text.substring_char(ls + 10, le));
                self.tasks[n - 1].add_subtask(name, true);
                proof {
                    assert(name@ =~= l.skip(10));
                    let last = old(self)@.tasks[n - 1];
                    assert(views_of(self.tasks@) =~~= old(self)@.tasks.update(
                        n - 1,
                        TaskView {
                            subtasks: last.subtasks.push(
                                SubtaskView { name: l.skip(10), status: true },
                            ),
                            ..last
                        },
                    ));
                    assert(self@ =~~= line_step(old(self)@, l));
                }
            } else {
                proof {
                    assert(self@ =~~= line_step(old(self)@, l));
                }
            }
        } else {
            proof {
                assert(self@ =~~= line_step(old(self)@, l));
            }
        }
    }
}

/// Folding one line is one step.
proof fn lemma_decode_lines_single(s: DecodeState, l: Seq<char>)
    ensures
        decode_lines(s, seq![l]) == line_step(s, l),
{
    assert(seq![l].drop_first() =~= Seq::<Seq<char>>::empty());
    assert(decode_lines(line_step(s, l), Seq::<Seq<char>>::empty()) == line_step(s, l));
}

/// Parses a text into tasks, line by line, as `decode_spec` describes.
/// Ids are assigned sequentially by load order.
pub fn decode(text: &str) -> (r: Vec<Task>)
    ensures
        views_of(r@) == decode_spec(text@),
{
    let n = text.unicode_len();
    let mut parser = Parser { status: Status::Todo, tasks: Vec::new() };
    proof {
        assert(views_of(parser.tasks@) =~= Seq::<TaskView>::empty());
        assert(parser@ =~~= DecodeState::initial());
        assert(text@.skip(0) =~= text@);
    }
    let mut pos: usize = 0;
    let mut done = false;
    while !done
        invariant
            pos <= n,
            n == text@.len(),
            !done ==> decode_lines(DecodeState::initial(), split_lines(text@)) == decode_lines(
                parser@,
                split_lines(text@.skip(pos as int)),
            ),
            done ==> decode_lines(DecodeState::initial(), split_lines(text@)) == parser@,
        decreases n - pos + (if done {
            0int
        } else {
            1int
        }),
    {
        let mut e = pos;
        while e < n && text.get_char(e) != '\n'
            invariant
                pos <= e <= n,
                n == text@.len(),
                forall|j: int| pos <= j < e ==> text@[j] != '\n',
            decreases n - e,
        {
            e = e + 1;
        }
        let ghost rem = text@.skip(pos as int);
        let ghost l = text@.subrange(pos as int, e as int);
        let ghost st_before = parser@;
        parser.step_line(text, pos, e);
        proof {
            lemma_marker_chars();
            assert(no_newline(l));
        }
        if e < n {
            proof {
                assert(text@[e as int] == '\n');
                assert(rem =~= l + newline() + text@.skip(e + 1));
                lemma_split_lines_step(l, text@.skip(e + 1));
                assert((seq![l] + split_lines(text@.skip(e + 1)))[0] == l);
                assert((seq![l] + split_lines(text@.skip(e + 1))).drop_first() =~= split_lines(
                    text@.skip(e + 1),
                ));
                assert(decode_lines(st_before, split_lines(rem)) == decode_lines(
                    parser@,
                    split_lines(text@.skip(e + 1)),
                ));
            }
            pos = e + 1;
        } else {
            proof {
                assert(rem =~= l);
                lemma_split_lines_single(l);
                lemma_decode_lines_single(st_before, l);
                assert(decode_lines(st_before, split_lines(rem)) == parser@);
            }
            done = true;
        }
    }
    proof {
        assert(views_of(parser.tasks@) == decode_spec(text@));
    }
    parser.tasks
}

// ---------------------------------------------------------------------
// The round trip: decoding an encoded list restores its tasks.
// ---------------------------------------------------------------------
/// A task the format can carry faithfully: a non-empty name, and no line
/// break inside the name, the description or a subtask name.
pub open spec fn task_encodable(t: TaskView) -> bool {
    &&& t.name.len() > 0
    &&& no_newline(t.name)
    &&& no_newline(t.description)
    &&& forall|j: int| 0 <= j < t.subtasks.len() ==> no_newline(#[trigger] t.subtasks[j].name)
}

pub open spec fn encodable(ts: Seq<TaskView>) -> bool {
    forall|i: int| 0 <= i < ts.len() ==> task_encodable(#[trigger] ts[i])
}

/// Two tasks carry the same content: name, description, status and
/// subtasks, ids aside.
pub open spec fn same_content(a: TaskView, b: TaskView) -> bool {
    &&& a.name == b.name
    &&& a.description == b.description
    &&& a.status == b.status
    &&& a.subtasks == b.subtasks
}

/// The task the decoder rebuilds from an encoded task: same content,
/// status from the section, the id next in load order.
pub open spec fn decoded_of(t: TaskView, st: Status, count: int) -> TaskView {
    TaskView {
        name: t.name,
        description: t.description,
        status: st,
        id: next_load_id(count),
        due_date: Seq::empty(),
        subtasks: t.subtasks,
    }
}

/// No marker holds a line break.
proof fn lemma_markers_no_newline()
    ensures
        no_newline(task_prefix()),
        no_newline(desc_prefix()),
        no_newline(sub_open_prefix()),
        no_newline(sub_done_prefix()),
        no_newline(section_heading(Status::Todo)),
        no_newline(section_heading(Status::Doing)),
        no_newline(section_heading(Status::Done)),
{
    lemma_marker_chars();
}

/// Concatenation keeps freedom from line breaks.
proof fn lemma_no_newline_add(a: Seq<char>, b: Seq<char>)
    requires
        no_newline(a),
        no_newline(b),
    ensures
        no_newline(a + b),
{
    assert forall|i: int| 0 <= i < (a + b).len() implies (a + b)[i] != '\n' by {
        if i < a.len() {
            assert((a + b)[i] == a[i]);
        } else {
            assert((a + b)[i] == b[i - a.len()]);
        }
    }
}

/// The tasks of one status are tasks of the list, with that status.
proof fn lemma_matching_members(ts: Seq<TaskView>, st: Status)
    ensures
        forall|i: int|
            0 <= i < matching(ts, st).len() ==> (#[trigger] matching(ts, st)[i]).status == st,
        encodable(ts) ==> encodable(matching(ts, st)),
    decreases ts.len(),
{
    if ts.len() > 0 {
        lemma_matching_members(ts.drop_first(), st);
        assert(encodable(ts) ==> encodable(ts.drop_first()));
        if ts[0].status == st {
            assert(forall|i: int|
                1 <= i < matching(ts, st).len() ==> matching(ts, st)[i] == matching(
                    ts.drop_first(),
                    st,
                )[i - 1]);
            assert(matching(ts, st)[0] == ts[0]);
        }
    }
}

/// Every line of an encodable task is free of line breaks.
proof fn lemma_task_lines_no_newline(t: TaskView)
    requires
        task_encodable(t),
    ensures
        forall|i: int| 0 <= i < task_lines(t).len() ==> no_newline(#[trigger] task_lines(t)[i]),
{
    lemma_markers_no_newline();
    lemma_no_newline_add(task_prefix(), t.name);
    lemma_no_newline_add(desc_prefix(), t.description);
    assert forall|i: int| 0 <= i < task_lines(t).len() implies no_newline(
        #[trigger] task_lines(t)[i],
    ) by {
        let dlen: int = if t.description.len() == 0 {
            0
        } else {
            1
        };
        if i >= 1 + dlen {
            let j = i - 1 - dlen;
            assert(task_lines(t)[i] == subtask_line(t.subtasks[j]));
            if t.subtasks[j].status {
                lemma_no_newline_add(sub_done_prefix(), t.subtasks[j].name);
            } else {
                lemma_no_newline_add(sub_open_prefix(), t.subtasks[j].name);
            }
        }
    }
}

/// Every line written for an encodable row of tasks is break-free.
proof fn lemma_tasks_lines_no_newline(ms: Seq<TaskView>)
    requires
        encodable(ms),
    ensures
        forall|i: int| 0 <= i < tasks_lines(ms).len() ==> no_newline(#[trigger] tasks_lines(ms)[i]),
    decreases ms.len(),
{
    if ms.len() > 0 {
        lemma_task_lines_no_newline(ms[0]);
        assert(encodable(ms.drop_first()));
        lemma_tasks_lines_no_newline(ms.drop_first());
        assert(forall|i: int|
            0 <= i < tasks_lines(ms).len() ==> tasks_lines(ms)[i] == (if i < task_lines(
                ms[0],
            ).len() {
                task_lines(ms[0])[i]
            } else {
                tasks_lines(ms.drop_first())[i - task_lines(ms[0]).len()]
            }));
    }
}

/// Every line of the encoded document is break-free.
proof fn lemma_document_lines_no_newline(ts: Seq<TaskView>)
    requires
        encodable(ts),
    ensures
        forall|i: int|
            0 <= i < document_lines(ts).len() ==> no_newline(#[trigger] document_lines(ts)[i]),
{
    lemma_markers_no_newline();
    lemma_matching_members(ts, Status::Todo);
    lemma_matching_members(ts, Status::Doing);
    lemma_matching_members(ts, Status::Done);
    lemma_tasks_lines_no_newline(matching(ts, Status::Todo));
    lemma_tasks_lines_no_newline(matching(ts, Status::Doing));
    lemma_tasks_lines_no_newline(matching(ts, Status::Done));
    assert forall|i: int| 0 <= i < document_lines(ts).len() implies no_newline(
        #[trigger] document_lines(ts)[i],
    ) by {
        let s1 = section_lines(ts, Status::Todo);
        let s2 = section_lines(ts, Status::Doing);
        let s3 = section_lines(ts, Status::Done);
        let l = document_lines(ts)[i];
        assert(l == if i < s1.len() {
            s1[i]
        } else if i == s1.len() {
            Seq::<char>::empty()
        } else if i < s1.len() + 1 + s2.len() {
            s2[i - s1.len() - 1]
        } else if i == s1.len() + 1 + s2.len() {
            Seq::<char>::empty()
        } else {
            s3[i - s1.len() - s2.len() - 2]
        });
        assert(forall|st: Status, j: int|
            0 <= j < section_lines(ts, st).len() ==> #[trigger] section_lines(ts, st)[j] == (if j
                == 0 {
                section_heading(st)
            } else {
                tasks_lines(matching(ts, st))[j - 1]
            }));
    }
}

/// An empty line changes nothing.
proof fn lemma_blank_line(s: DecodeState)
    ensures
        line_step(s, Seq::<char>::empty()) == s,
{
    lemma_marker_chars();
    assert(hash_prefix_len(Seq::<char>::empty()) == 0);
}

/// A section heading line resets the status context to its status.
proof fn lemma_heading_step(s: DecodeState, st: Status)
    ensures
        line_step(s, section_heading(st)) == (DecodeState { status: st, tasks: s.tasks }),
{
    lemma_marker_chars();
    reveal_strlit("Todo");
    reveal_strlit("Doing");
    reveal_strlit("Done");
    let l = section_heading(st);
    lemma_hash_prefix_exact(l, 2);
    assert(is_heading(l));
    match st {
        Status::Todo => {
            assert(heading_text(l) =~= "Todo"@);
            assert(seq_eq_ic("Todo"@, "Todo"@));
        },
        Status::Doing => {
            assert(heading_text(l) =~= "Doing"@);
            assert(!seq_eq_ic("Doing"@, "Todo"@));
            assert(seq_eq_ic("Doing"@, "Doing"@));
        },
        Status::Done => {
            assert(heading_text(l) =~= "Done"@);
            assert(!eq_ic("Done"@[0], "Todo"@[0]));
            assert(!seq_eq_ic("Done"@, "Todo"@));
            assert(!seq_eq_ic("Done"@, "Doing"@));
            assert(seq_eq_ic("Done"@, "Done"@));
        },
    }
    assert(line_step(s, l) =~~= DecodeState { status: st, tasks: s.tasks });
}

/// Reading a task's subtask lines appends its subtasks to the last task.
proof fn lemma_subs_decode(s: DecodeState, subs: Seq<SubtaskView>)
    requires
        s.tasks.len() > 0,
    ensures
        decode_lines(s, sub_lines(subs)) == (DecodeState {
            status: s.status,
            tasks: s.tasks.update(
                s.tasks.len() - 1,
                TaskView {
                    subtasks: s.tasks[s.tasks.len() - 1].subtasks + subs,
                    ..s.tasks[s.tasks.len() - 1]
                },
            ),
        }),
    decreases subs.len(),
{
    lemma_marker_chars();
    let n = s.tasks.len() as int;
    let last = s.tasks[n - 1];
    if subs.len() == 0 {
        assert(sub_lines(subs) =~= Seq::<Seq<char>>::empty());
        assert(last.subtasks + subs =~= last.subtasks);
        assert((TaskView { subtasks: last.subtasks + subs, ..last }) =~~= last);
        assert(s.tasks.update(n - 1, last) =~= s.tasks);
        assert(decode_lines(s, sub_lines(subs)) =~~= (DecodeState {
            status: s.status,
            tasks: s.tasks.update(n - 1, TaskView { subtasks: last.subtasks + subs, ..last }),
        }));
    } else {
        let x = subs[0];
        let l = subtask_line(x);
        // The subtask line is read as that subtask and nothing else.
        assert(l[0] == ' ');
        lemma_hash_prefix_exact(l, 0);
        assert(!is_heading(l));
        if x.status {
            assert(l.take(2)[0] != task_prefix()[0]);
            assert(!starts_with(l, task_prefix()));
            assert(l.take(6)[4] != desc_prefix()[4]);
            assert(!starts_with(l, desc_prefix()));
            assert(l.take(10)[7] != sub_open_prefix()[7]);
            assert(!starts_with(l, sub_open_prefix()));
            assert(l.take(10) =~= sub_done_prefix());
            assert(starts_with(l, sub_done_prefix()));
        } else {
            assert(l.take(2)[0] != task_prefix()[0]);
            assert(!starts_with(l, task_prefix()));
            assert(l.take(6)[4] != desc_prefix()[4]);
            assert(!starts_with(l, desc_prefix()));
            assert(l.take(10) =~= sub_open_prefix());
            assert(starts_with(l, sub_open_prefix()));
        }
        assert(l.skip(10) =~= x.name);
        let pushed = SubtaskView { name: l.skip(10), status: x.status };
        assert(pushed =~~= x);
        let s1 = line_step(s, l);
        assert(s1 =~~= (DecodeState {
            status: s.status,
            tasks: s.tasks.update(n - 1, TaskView { subtasks: last.subtasks.push(x), ..last }),
        }));
        assert(sub_lines(subs) =~= seq![l] + sub_lines(subs.drop_first()));
        assert((seq![l] + sub_lines(subs.drop_first()))[0] == l);
        assert((seq![l] + sub_lines(subs.drop_first())).drop_first() =~= sub_lines(
            subs.drop_first(),
        ));
        lemma_subs_decode(s1, subs.drop_first());
        let last1 = s1.tasks[n - 1];
        assert(last1 == (TaskView { subtasks: last.subtasks.push(x), ..last }));
        assert(last.subtasks.push(x) + subs.drop_first() =~= last.subtasks + subs);
        assert((TaskView { subtasks: last1.subtasks + subs.drop_first(), ..last1 }) =~~= (TaskView {
            subtasks: last.subtasks + subs,
            ..last
        }));
        assert(s1.tasks.update(n - 1, TaskView { subtasks: last1.subtasks + subs.drop_first(), ..last1 })
            =~= s.tasks.update(n - 1, TaskView { subtasks: last.subtasks + subs, ..last }));
        assert(decode_lines(s, sub_lines(subs)) == decode_lines(s1, sub_lines(subs.drop_first())));
    }
}

/// Reading one encoded task appends its decoded form.
proof fn lemma_task_decode(s: DecodeState, t: TaskView)
    ensures
        decode_lines(s, task_lines(t)) == (DecodeState {
            status: s.status,
            tasks: s.tasks.push(decoded_of(t, s.status, s.tasks.len() as int)),
        }),
{
    lemma_marker_chars();
    let name_line = task_prefix() + t.name;
    // The name line creates the task.
    assert(name_line[0] == '-');
    lemma_hash_prefix_exact(name_line, 0);
    assert(!is_heading(name_line));
    assert(name_line.take(2) =~= task_prefix());
    assert(starts_with(name_line, task_prefix()));
    assert(name_line.skip(2) =~= t.name);
    let s1 = line_step(s, name_line);
    let fresh = fresh_task(t.name, s.status, s.tasks.len() as int);
    assert(s1 =~~= (DecodeState { status: s.status, tasks: s.tasks.push(fresh) }));
    let n1 = s1.tasks.len() as int;
    assert(n1 == s.tasks.len() + 1);
    assert(s1.tasks[n1 - 1] == fresh);
    // The description line, when present, fills the description in.
    let desc_ls = if t.description.len() == 0 {
        Seq::<Seq<char>>::empty()
    } else {
        seq![desc_prefix() + t.description]
    };
    let with_desc = TaskView { description: t.description, ..fresh };
    let s2 = decode_lines(s1, desc_ls);
    if t.description.len() == 0 {
        assert(s2 == s1);
        assert(with_desc =~~= fresh);
        assert(s2.tasks =~= s.tasks.push(with_desc));
    } else {
        let dl = desc_prefix() + t.description;
        assert(dl[0] == ' ');
        lemma_hash_prefix_exact(dl, 0);
        assert(!is_heading(dl));
        assert(dl.take(2)[0] != task_prefix()[0]);
        assert(!starts_with(dl, task_prefix()));
        assert(dl.take(6) =~= desc_prefix());
        assert(starts_with(dl, desc_prefix()));
        assert(dl.skip(6) =~= t.description);
        lemma_decode_lines_single(s1, dl);
        assert(fresh.description + t.description =~= t.description);
        assert(line_step(s1, dl).tasks =~= s1.tasks.update(
            n1 - 1,
            TaskView { description: t.description, ..fresh },
        ));
        assert(s2.tasks =~= s.tasks.push(with_desc));
        assert(s2.status == s.status);
    }
    // The subtask lines append the subtasks.
    lemma_subs_decode(s2, t.subtasks);
    let s3 = decode_lines(s2, sub_lines(t.subtasks));
    assert(s2.tasks[s2.tasks.len() - 1] == with_desc);
    assert(with_desc.subtasks + t.subtasks =~= t.subtasks);
    assert((TaskView { subtasks: with_desc.subtasks + t.subtasks, ..with_desc }) =~~= decoded_of(
        t,
        s.status,
        s.tasks.len() as int,
    ));
    assert(s3.tasks =~= s.tasks.push(decoded_of(t, s.status, s.tasks.len() as int)));
    // Glue the three line groups together.
    lemma_decode_lines_append(s, seq![name_line] + desc_ls, sub_lines(t.subtasks));
    lemma_decode_lines_append(s, seq![name_line], desc_ls);
    lemma_decode_lines_single(s, name_line);
    assert(task_lines(t) == (seq![name_line] + desc_ls) + sub_lines(t.subtasks));
    assert(decode_lines(s, task_lines(t)) =~~= (DecodeState {
        status: s.status,
        tasks: s.tasks.push(decoded_of(t, s.status, s.tasks.len() as int)),
    }));
}

/// Reading an encoded row of tasks appends their decoded forms, ids
/// continuing in load order.
proof fn lemma_tasks_decode(s: DecodeState, ms: Seq<TaskView>)
    ensures
        decode_lines(s, tasks_lines(ms)) == (DecodeState {
            status: s.status,
            tasks: s.tasks + Seq::new(
                ms.len(),
                |i: int| decoded_of(ms[i], s.status, s.tasks.len() + i),
            ),
        }),
    decreases ms.len(),
{
    if ms.len() == 0 {
        assert(s.tasks + Seq::new(0nat, |i: int| decoded_of(ms[i], s.status, s.tasks.len() + i))
            =~= s.tasks);
        assert(decode_lines(s, tasks_lines(ms)) =~~= (DecodeState {
            status: s.status,
            tasks: s.tasks + Seq::new(
                ms.len(),
                |i: int| decoded_of(ms[i], s.status, s.tasks.len() + i),
            ),
        }));
    } else {
        lemma_decode_lines_append(s, task_lines(ms[0]), tasks_lines(ms.drop_first()));
        lemma_task_decode(s, ms[0]);
        let s1 = decode_lines(s, task_lines(ms[0]));
        lemma_tasks_decode(s1, ms.drop_first());
        assert(decode_lines(s, tasks_lines(ms)).tasks =~= s.tasks + Seq::new(
            ms.len(),
            |i: int| decoded_of(ms[i], s.status, s.tasks.len() + i),
        ));
    }
}

/// Reading one encoded section sets its status context and appends the
/// decoded tasks of that status.
proof fn lemma_section_decode(s: DecodeState, ts: Seq<TaskView>, st: Status)
    ensures
        decode_lines(s, section_lines(ts, st)) == (DecodeState {
            status: st,
            tasks: s.tasks + Seq::new(
                matching(ts, st).len(),
                |i: int| decoded_of(matching(ts, st)[i], st, s.tasks.len() + i),
            ),
        }),
{
    let heading_ls = seq![section_heading(st)];
    let body_ls = tasks_lines(matching(ts, st));
    lemma_decode_lines_append(s, heading_ls, body_ls);
    lemma_decode_lines_single(s, section_heading(st));
    lemma_heading_step(s, st);
    let s1 = DecodeState { status: st, tasks: s.tasks };
    lemma_tasks_decode(s1, matching(ts, st));
    assert(section_lines(ts, st) == heading_ls + body_ls);
    assert(decode_lines(s, section_lines(ts, st)) =~~= (DecodeState {
        status: st,
        tasks: s.tasks + Seq::new(
            matching(ts, st).len(),
            |i: int| decoded_of(matching(ts, st)[i], st, s.tasks.len() + i),
        ),
    }));
}

/// The round trip. Decoding the encoded form of an encodable task list
/// restores every task's name, description, status and subtasks. Tasks
/// come back grouped Todo, Doing, Done, their order within each status
/// kept, and their ids reassigned sequentially by load order.
pub proof fn lemma_round_trip(ts: Seq<TaskView>)
    requires
        encodable(ts),
    ensures
        ({
            let d = decode_spec(encode_spec(ts));
            let g = matching(ts, Status::Todo) + matching(ts, Status::Doing) + matching(
                ts,
                Status::Done,
            );
            &&& d.len() == g.len()
            &&& forall|i: int| 0 <= i < g.len() ==> same_content(#[trigger] d[i], g[i])
            &&& forall|i: int| 0 <= i < g.len() ==> (#[trigger] d[i]).id == next_load_id(i)
        }),
{
    let d = decode_spec(encode_spec(ts));
    let g = matching(ts, Status::Todo) + matching(ts, Status::Doing) + matching(ts, Status::Done);
    // The encoded text splits back into the document's lines.
    lemma_document_lines_no_newline(ts);
    lemma_split_unlines(document_lines(ts));
    // Reading the three sections accumulates the three decoded rows.
    let s0 = DecodeState::initial();
    let dls = document_lines(ts);
    let s1l = section_lines(ts, Status::Todo);
    let s2l = section_lines(ts, Status::Doing);
    let s3l = section_lines(ts, Status::Done);
    let blank = seq![Seq::<char>::empty()];
    lemma_decode_lines_append(s0, dls, blank);
    lemma_decode_lines_append(s0, s1l + blank + s2l + blank, s3l);
    lemma_decode_lines_append(s0, s1l + blank + s2l, blank);
    lemma_decode_lines_append(s0, s1l + blank, s2l);
    lemma_decode_lines_append(s0, s1l, blank);
    assert(dls == (((s1l + blank) + s2l) + blank) + s3l);
    lemma_section_decode(s0, ts, Status::Todo);
    let a1 = decode_lines(s0, s1l);
    lemma_decode_lines_single(a1, Seq::<char>::empty());
    lemma_blank_line(a1);
    lemma_section_decode(a1, ts, Status::Doing);
    let a2 = decode_lines(a1, s2l);
    lemma_decode_lines_single(a2, Seq::<char>::empty());
    lemma_blank_line(a2);
    lemma_section_decode(a2, ts, Status::Done);
    let a3 = decode_lines(a2, s3l);
    lemma_decode_lines_single(a3, Seq::<char>::empty());
    lemma_blank_line(a3);
    assert(decode_lines(s0, dls + blank) == a3);
    assert(split_lines(encode_spec(ts)) == dls + blank);
    assert(d == a3.tasks);
    // The accumulated tasks match the grouped source tasks pointwise.
    let m1 = matching(ts, Status::Todo);
    let m2 = matching(ts, Status::Doing);
    let m3 = matching(ts, Status::Done);
    lemma_matching_members(ts, Status::Todo);
    lemma_matching_members(ts, Status::Doing);
    lemma_matching_members(ts, Status::Done);
    assert(d.len() == g.len());
    assert forall|i: int| 0 <= i < g.len() implies same_content(#[trigger] d[i], g[i]) && d[i].id
        == next_load_id(i) by {
        if i < m1.len() {
            assert(d[i] == decoded_of(m1[i], Status::Todo, i));
            assert(g[i] == m1[i]);
        } else if i < m1.len() + m2.len() {
            assert(d[i] == decoded_of(m2[i - m1.len()], Status::Doing, i));
            assert(g[i] == m2[i - m1.len()]);
        } else {
            assert(d[i] == decoded_of(m3[i - m1.len() - m2.len()], Status::Done, i));
            assert(g[i] == m3[i - m1.len() - m2.len()]);
        }
    }
}

} // verus!
