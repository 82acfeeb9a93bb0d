//! The settings of the recognition models, as their config file gives
//! them.
use vstd::prelude::*;
use crate::store::{find_eq, first_eq_from, has_eq, second_field};

verus! {

/// The settings of a model. The config file sets one setting, `executor`:
/// the device the model runs on.
pub struct ModelParams {
    pub executor: Option<String>,
}

/// The text of an optional setting.
pub open spec fn setting_view(o: Option<String>) -> Option<Seq<char>> {
    match o {
        Some(s) => Some(s@),
        None => None,
    }
}

/// The key of a config line: the text before its first `=`, or the whole
/// line.
pub open spec fn line_key(s: Seq<char>) -> Seq<char> {
    s.subrange(0, first_eq_from(s, 0))
}

/// The line sets the executor.
pub open spec fn is_executor_line(s: Seq<char>) -> bool {
    line_key(s) == "executor"@
}

/// The executor that `lines` leave, starting from `prior`: the value of
/// the last line that sets it, or `prior` where none does.
pub open spec fn executor_after(lines: Seq<String>, prior: Option<Seq<char>>) -> Option<Seq<char>>
    decreases lines.len(),
{
    if lines.len() == 0 {
        prior
    } else if is_executor_line(lines.last()@) {
        Some(second_field(lines.last()@))
    } else {
        executor_after(lines.drop_last(), prior)
    }
}

/// Every line that sets the executor gives it a value after an `=`.
pub open spec fn executor_lines_assign(lines: Seq<String>) -> bool {
    forall|i: int| 0 <= i < lines.len() && is_executor_line(#[trigger] lines[i]@) ==> has_eq(lines[i]@)
}

/// Whether every line that sets the executor gives it a value after an
/// `=`, as `process_config_file` needs.
pub fn executor_lines_have_values(lines: &Vec<String>) -> (r: bool)
    ensures
        r == executor_lines_assign(lines@),
{
    let executor_key: String = String::from_str("executor");
    let mut i: usize = 0;
    while i < lines.len()
        invariant
            i <= lines@.len(),
            executor_key@ == "executor"@,
            forall|j: int| 0 <= j < i && is_executor_line(#[trigger] lines@[j]@) ==> has_eq(lines@[j]@),
        decreases lines@.len() - i,
    {
        let line: &str = lines[i].as_str();
        let a: usize = find_eq(line, 0);
        let key: String = String::from_str(line.substring_char(0, a));
        if key == executor_key && a == line.unicode_len() {
            assert(is_executor_line(lines@[i as int]@));
            return false;
        }
        i = i + 1;
    }
    true
}

/// Applies the readable lines of a model's config file, in file order, to
/// `h_map`: each line whose key is `executor` sets the executor to the text
/// after its first `=` (up to the next `=`); other lines are ignored.
pub fn process_config_file(lines: &Vec<String>, h_map: &mut ModelParams)
    requires
        executor_lines_assign(lines@),
    ensures
        setting_view(final(h_map).executor) == executor_after(lines@, setting_view(old(h_map).executor)),
{
    let ghost prior: Option<Seq<char>> = setting_view(h_map.executor);
    let executor_key: String = String::from_str("executor");
    let mut i: usize = 0;
    while i < lines.len()
        invariant
            i <= lines@.len(),
            executor_lines_assign(lines@),
            executor_key@ == "executor"@,
            setting_view(h_map.executor) == executor_after(lines@.take(i as int), prior),
        decreases lines@.len() - i,
    {
        let line: &str = lines[i].as_str();
        let a: usize = find_eq(line, 0);
        let key: String = String::from_str(line.substring_char(0, a));
        let ghost upto: Seq<String> = lines@.take(i + 1);
        assert(upto.drop_last() =~= lines@.take(i as int));
        assert(upto.last() == lines@[i as int]);
        if key == executor_key {
            assert(is_executor_line(lines@[i as int]@));
            assert(has_eq(line@));
            let b: usize = find_eq(line, a + 1);
            let value: String = String::from_str(line.substring_char(a + 1, b));
            h_map.executor = Some(value);
        }
        i = i + 1;
    }
    assert(lines@.take(lines@.len() as int) =~= lines@);
}

/// The device a model runs on where its config file cannot be read.
pub open spec fn default_executor() -> Seq<char> {
    "CPU"@
}

/// The settings of a model from the readable lines of its config file, or,
/// where the file could not be opened (`None`), the default executor.
pub fn get_model_params(lines: Option<&Vec<String>>) -> (r: ModelParams)
    requires
        lines matches Some(l) ==> executor_lines_assign(l@),
    ensures
        setting_view(r.executor) == match lines {
            Some(l) => executor_after(l@, None),
            None => Some(default_executor()),
        },
{
    let mut retval: ModelParams = ModelParams { executor: None };
    match lines {
        Some(buffer) => {
            process_config_file(buffer, &mut retval);
        },
        None => {
            retval.executor = Some(String::from_str("CPU"));
        },
    }
    retval
}

/// Applying two parts of a config file one after the other gives what
/// applying the whole file gives: the executor after `a + b` is the one `b`
/// leaves, starting from what `a` left.
pub proof fn law_config_composes(a: Seq<String>, b: Seq<String>, prior: Option<Seq<char>>)
    ensures
        executor_after(a + b, prior) == executor_after(b, executor_after(a, prior)),
    decreases b.len(),
{
    if b.len() == 0 {
        assert(a + b =~= a);
    } else {
        assert((a + b).drop_last() =~= a + b.drop_last());
        assert((a + b).last() == b.last());
        law_config_composes(a, b.drop_last(), prior);
    }
}

/// A line that does not set the executor has no effect, wherever it stands
/// in the file: comments, other keys and lines without `=` are skipped, and
/// the executor is the value of the last executor line of the whole file.
pub proof fn law_other_lines_ignored(
    a: Seq<String>,
    line: String,
    b: Seq<String>,
    prior: Option<Seq<char>>,
)
    requires
        !is_executor_line(line@),
    ensures
        executor_after(a + seq![line] + b, prior) == executor_after(a + b, prior),
{
    law_config_composes(a + seq![line], b, prior);
    law_config_composes(a, b, prior);
    let al = a + seq![line];
    assert(al.drop_last() =~= a);
    assert(al.last() == line);
}

/// The executor after a line that sets it is that line's value, whatever
/// came before.
pub proof fn law_last_executor_line_wins(a: Seq<String>, line: String, prior: Option<Seq<char>>)
    requires
        is_executor_line(line@),
    ensures
        executor_after(a.push(line), prior) == Some(second_field(line@)),
{
    assert(a.push(line).last() == line);
}

} // verus!
