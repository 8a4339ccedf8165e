//! What holds of paths, and of what is found through them.

use crate::config;
use crate::config::ConfiguredTest;
use crate::environment;
use crate::path;
use crate::process::{PtyOptions, SpawnPlan};
use crate::session::LaunchOptions;
use crate::text;
use vstd::prelude::*;

verus! {

/// A path without a separator in it.
pub open spec fn is_name(name: Seq<u8>) -> bool {
    name.len() > 0 && forall|i: int| 0 <= i < name.len() ==> #[trigger] name[i] != 0x2f
}

/// A path that ends neither in a separator nor in a dot behind one.
pub open spec fn is_clean(path: Seq<u8>) -> bool {
    &&& path.len() > 0
    &&& path.last() != 0x2f
    &&& path.len() > 1 && path.last() == 0x2e ==> path[path.len() - 2] != 0x2f
}

/// A path from the root is itself wherever it is seen from. Another one stands
/// behind the directory it is seen from, with one separator between them; seen from
/// nowhere it is itself.
pub proof fn lemma_joined_paths(base: Seq<u8>, other: Seq<u8>)
    ensures
        other.len() > 0 && other[0] == 0x2f ==> path::joined(base, other) == other,
        !(other.len() > 0 && other[0] == 0x2f) && is_clean(base) ==> path::joined(base, other)
            == base + seq![0x2fu8] + other,
        !(other.len() > 0 && other[0] == 0x2f) && base.len() > 0 && base.last() == 0x2f
            ==> path::joined(base, other) == base + other,
        path::joined(seq![], other) == other,
{
    assert(path::joined(seq![], other) =~= other);
    if is_clean(base) {
        assert(base.push(0x2fu8) + other =~= base + seq![0x2fu8] + other);
    }
}

/// The directory of a name in a directory is that directory.
pub proof fn lemma_parents(base: Seq<u8>, name: Seq<u8>)
    requires
        is_clean(base),
        is_name(name),
        name != seq![0x2eu8],
    ensures
        path::parent_of(path::joined(base, name)) == Some(base),
        path::parent_of(seq![0x2fu8] + name) == Some(seq![0x2fu8]),
        path::parent_of(seq![0x2fu8]) is None,
        path::parent_of(seq![]) is None,
{
    assert(name[0] != 0x2f);
    let whole = base.push(0x2fu8) + name;
    assert(path::joined(base, name) == whole);
    lemma_parent_in(base, name);
    let rooted = seq![0x2fu8] + name;
    assert(Seq::<u8>::empty().push(0x2fu8) + name =~= rooted);
    lemma_part_starts(Seq::<u8>::empty(), name, rooted.len() as int);
    lemma_last_part_stays(Seq::<u8>::empty(), name);
    assert(path::trimmed_length(rooted, 1) == 1);
    assert(rooted.take(1) =~= seq![0x2fu8]);
    assert(seq![0x2fu8][0] == 0x2f);
}

proof fn lemma_parent_in(base: Seq<u8>, name: Seq<u8>)
    requires
        is_clean(base),
        is_name(name),
        name != seq![0x2eu8],
    ensures
        path::parent_of(base.push(0x2fu8) + name) == Some(base),
{
    let whole = base.push(0x2fu8) + name;
    let n = base.len() as int;
    lemma_last_part_stays(base, name);
    lemma_part_starts(base, name, whole.len() as int);
    assert(whole[n] == 0x2f);
    assert(whole[n - 1] == base.last());
    if n > 1 {
        assert(whole[n - 2] == base[n - 2]);
    }
    assert(path::trimmed_length(whole, n + 1) == path::trimmed_length(whole, n));
    assert(path::trimmed_length(whole, n) == n);
    assert(whole.take(n) =~= base);
}

proof fn lemma_last_part_stays(base: Seq<u8>, name: Seq<u8>)
    requires
        is_name(name),
        name != seq![0x2eu8],
    ensures
        ({
            let whole = base.push(0x2fu8) + name;
            path::trimmed_length(whole, whole.len() as int) == whole.len()
        }),
{
    let whole = base.push(0x2fu8) + name;
    let n = base.len() as int;
    let last = whole.len() - 1;
    assert(whole[last] == name[name.len() - 1]);
    if name.len() > 1 {
        assert(whole[last - 1] == name[name.len() - 2]);
    } else {
        assert(name[0] == 0x2e ==> name =~= seq![0x2eu8]);
    }
}

proof fn lemma_part_starts(base: Seq<u8>, name: Seq<u8>, end: int)
    requires
        is_name(name),
        base.len() < end <= base.len() + 1 + name.len(),
    ensures
        path::part_start(base.push(0x2fu8) + name, end) == base.len() + 1,
    decreases end,
{
    let whole = base.push(0x2fu8) + name;
    let n = base.len() as int;
    if end > n + 1 {
        assert(whole[end - 1] == name[end - 1 - n - 1]);
        lemma_part_starts(base, name, end - 1);
    } else {
        assert(whole[n] == 0x2f);
    }
}

/// A name alone is one component; a name behind a directory's name is the second.
pub proof fn lemma_components(directory: Seq<u8>, name: Seq<u8>)
    requires
        is_name(directory),
        is_name(name),
        name != seq![0x2eu8],
    ensures
        path::components(name) == 1,
        path::components(directory + seq![0x2fu8] + name) == 2,
{
    lemma_parts_of_a_name(name, name, name.len() as int);
    assert(name.take(name.len() as int) =~= name);
    reveal_with_fuel(path::component_count, 3);
    let whole = directory + seq![0x2fu8] + name;
    let n = directory.len() as int;
    lemma_parts_of_a_name(directory, whole, n);
    assert(directory.take(n) =~= directory);
    assert(whole[n] == 0x2f);
    assert(path::parts(whole, n + 1) =~= seq![directory, seq![]]);
    lemma_parts_behind(directory, name, name.len() as int);
    assert(name.take(name.len() as int) =~= name);
}

proof fn lemma_parts_of_a_name(name: Seq<u8>, whole: Seq<u8>, count: int)
    requires
        is_name(name),
        0 <= count <= name.len() <= whole.len(),
        forall|i: int| 0 <= i < name.len() ==> whole[i] == #[trigger] name[i],
    ensures
        path::parts(whole, count) == seq![name.take(count)],
    decreases count,
{
    if count > 0 {
        lemma_parts_of_a_name(name, whole, count - 1);
        assert(whole[count - 1] == name[count - 1]);
        assert(name.take(count) =~= name.take(count - 1).push(name[count - 1]));
        assert(path::parts(whole, count) =~= seq![name.take(count)]);
    } else {
        assert(name.take(0) =~= seq![]);
        assert(path::parts(whole, count) =~= seq![name.take(0)]);
    }
}

proof fn lemma_parts_behind(directory: Seq<u8>, name: Seq<u8>, count: int)
    requires
        is_name(directory),
        is_name(name),
        0 <= count <= name.len(),
    ensures
        path::parts(
            directory + seq![0x2fu8] + name,
            directory.len() + 1 + count,
        ) == seq![directory, name.take(count)],
    decreases count,
{
    let whole = directory + seq![0x2fu8] + name;
    let n = directory.len() as int;
    if count > 0 {
        lemma_parts_behind(directory, name, count - 1);
        assert(whole[n + count] == name[count - 1]);
        assert(name.take(count) =~= name.take(count - 1).push(name[count - 1]));
        assert(path::parts(whole, n + 1 + count) =~= seq![directory, name.take(count)]);
    } else {
        lemma_parts_of_a_name(directory, whole, n);
        assert(directory.take(n) =~= directory);
        assert(whole[n] == 0x2f);
        assert(name.take(0) =~= seq![]);
        assert(path::parts(whole, n + 1) =~= seq![directory, name.take(0)]);
    }
}

/// A command without a directory, and one from the root, is run as it is written.
/// One with a directory is seen from the starting directory, or from the current
/// one where none is given.
pub proof fn lemma_which_file_is_run(options: PtyOptions, current: Seq<u8>)
    ensures
        ({
            let command = options.command@;
            let rooted = command.len() > 0 && command[0] == 0x2f;
            let run = options.executable(current);
            &&& rooted ==> run == command
            &&& is_name(command) && command != seq![0x2eu8] ==> run == command
            &&& !rooted && path::components(command) > 1 && options.cwd is None ==> run
                == seq![0x2eu8, 0x2fu8] + command
            &&& !rooted && path::components(command) > 1 && options.cwd is Some ==> run
                == path::joined(path::joined(current, options.cwd->0@), command)
        }),
{
    let command = options.command@;
    if is_name(command) && command != seq![0x2eu8] {
        lemma_components(command, command);
    }
    let here = seq![0x2eu8];
    assert(here.push(0x2fu8) + command =~= seq![0x2eu8, 0x2fu8] + command);
    assert(here.last() == 0x2e);
}

/// A process sees the kind of its terminal and its columns and rows, and then what
/// the caller sets.
pub proof fn lemma_what_a_process_sees(options: PtyOptions, i: int)
    requires
        0 <= i < options.env@.len(),
    ensures
        ({
            let env = options.environment();
            &&& env.len() == 3 + options.env@.len()
            &&& env[0] == (
                vstd::utf8::encode_utf8("TERM"@),
                vstd::utf8::encode_utf8(options.term@),
            )
            &&& env[1] == (
                vstd::utf8::encode_utf8("COLUMNS"@),
                vstd::utf8::encode_utf8(text::decimal(options.cols as nat)),
            )
            &&& env[2] == (
                vstd::utf8::encode_utf8("LINES"@),
                vstd::utf8::encode_utf8(text::decimal(options.rows as nat)),
            )
            &&& env[3 + i] == options.env@[i]
        }),
{
}

/// The directory of a configuration file is that in which its name stands, and a
/// test starts there, or in its own directory seen from there.
pub proof fn lemma_where_a_test_starts(
    current: Seq<u8>,
    name: Seq<u8>,
    test: ConfiguredTest,
    resolved: ConfiguredTest,
)
    requires
        is_clean(current),
        is_name(name),
        name != seq![0x2eu8],
        config::is_resolved(resolved, test, config::directory_of(name, current)),
    ensures
        config::directory_of(name, current) == current,
        resolved.cwd is Some,
        test.cwd is None ==> resolved.cwd->0@ == current,
        test.cwd is Some && test.cwd->0@.len() > 0 && test.cwd->0@[0] == 0x2f ==> resolved.cwd->0@
            == test.cwd->0@,
        test.cwd is Some && !(test.cwd->0@.len() > 0 && test.cwd->0@[0] == 0x2f)
            ==> resolved.cwd->0@ == current + seq![0x2fu8] + test.cwd->0@,
        resolved.name == test.name,
        resolved.command == test.command,
        resolved.args == test.args,
        resolved.expect_exit_code == test.expect_exit_code,
{
    lemma_parents(current, name);
    if test.cwd is Some {
        lemma_joined_paths(current, test.cwd->0@);
    }
}

/// A test is sound exactly where it has a name and a command that are more than
/// white space, timeouts from one millisecond to a day, a terminal of at least one
/// cell and at most a million, a text to wait for that is not empty, and does not
/// both let its process run and wait for its end.
pub proof fn lemma_which_tests_are_sound(test: ConfiguredTest)
    ensures
        ({
            let cols = match test.cols {
                Some(cols) => cols as int,
                None => 80,
            };
            let rows = match test.rows {
                Some(rows) => rows as int,
                None => 24,
            };
            let timely = |value: Option<u64>|
                value is None || 1 <= value->0 <= 24 * 60 * 60 * 1000;
            config::fault_of(test) is None <==> {
                &&& text::trimmed(test.name@).len() > 0
                &&& text::trimmed(test.command@).len() > 0
                &&& timely(test.timeout_ms)
                &&& timely(test.allow_running_grace_ms)
                &&& timely(test.shutdown_timeout_ms)
                &&& cols >= 1 && rows >= 1 && cols * rows <= 1000000
                &&& test.expect_text is Some ==> test.expect_text->0@.len() > 0
                &&& test.allow_running ==> !test.expect_exit && test.expect_exit_code is None
            }
        }),
{
}

/// The plan for a process has the options' arguments, columns and rows, its file and
/// its directory.
pub proof fn lemma_what_a_plan_holds(plan: SpawnPlan, options: PtyOptions, current: Seq<u8>)
    requires
        plan.is_for(options, current),
    ensures
        plan.executable@ == options.executable(current),
        plan.args == options.args,
        plan.cols == options.cols,
        plan.rows == options.rows,
        plan.cwd is Some <==> options.cwd is Some,
        options.cwd is Some && options.cwd->0@.len() > 0 && options.cwd->0@[0] == 0x2f
            ==> plan.cwd->0@ == options.cwd->0@,
        options.cwd is Some && !(options.cwd->0@.len() > 0 && options.cwd->0@[0] == 0x2f)
            && is_clean(current) ==> plan.cwd->0@ == current + seq![0x2fu8] + options.cwd->0@,
        options.needs_current_directory() <==> options.cwd is Some && !(options.cwd->0@.len() > 0
            && options.cwd->0@[0] == 0x2f),
{
    if options.cwd is Some {
        lemma_joined_paths(current, options.cwd->0@);
    }
}

/// A session hands its own options on to its process.
pub proof fn lemma_sessions_hand_on_their_options(session: LaunchOptions, process: PtyOptions)
    requires
        session.is_for_process(process),
    ensures
        process.command == session.command,
        process.args == session.args,
        process.cwd == session.cwd,
        process.env == session.env,
        process.term == session.term,
        process.cols == session.cols,
        process.rows == session.rows,
        process.shutdown_timeout == session.shutdown_timeout,
{
}

/// Names come in the order of their bytes: the first byte in which two names differ
/// decides, and a name comes before a longer one that begins with it. Of two
/// different names exactly one comes first.
pub proof fn lemma_order_of_names(front: Seq<u8>, left: Seq<u8>, right: Seq<u8>)
    ensures
        left.len() > 0 && right.len() > 0 && left[0] < right[0] ==> environment::precedes(
            front + left,
            front + right,
        ) && !environment::precedes(front + right, front + left),
        left.len() > 0 ==> environment::precedes(front, front + left) && !environment::precedes(
            front + left,
            front,
        ),
        !environment::precedes(front, front),
    decreases front.len(),
{
    if front.len() > 0 {
        let rest = front.drop_first();
        lemma_order_of_names(rest, left, right);
        assert((front + left).drop_first() =~= rest + left);
        assert((front + right).drop_first() =~= rest + right);
    } else {
        assert(front + left =~= left);
        assert(front + right =~= right);
    }
}

} // verus!
