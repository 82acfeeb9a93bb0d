//! The storage pool's settings: its capacity, as the capacity file sets
//! it, and where its containers write.
use vstd::prelude::*;
use crate::decimal::{
    decimal_digits, is_digit, lemma_decimal_digits, lemma_parse_decimal_digits, parse_u64, spec_parse_u64,
};
use crate::storage::storage_base;

verus! {

/// The capacity of the storage pool where the capacity file sets none:
/// 4 GiB.
pub open spec fn default_capacity() -> u64 {
    4294967296
}

/// A line of the capacity file that starts with `#` is a comment.
pub open spec fn is_comment(line: Seq<char>) -> bool {
    line.len() > 0 && line[0] == '#'
}

/// The position of the first `=` in `s` at or after `from`, or the length
/// of `s` where there is none.
pub open spec fn first_eq_from(s: Seq<char>, from: int) -> int
    decreases s.len() - from,
{
    if from < 0 || from >= s.len() {
        s.len() as int
    } else if s[from] == '=' {
        from
    } else {
        first_eq_from(s, from + 1)
    }
}

/// `s` holds an `=`.
pub open spec fn has_eq(s: Seq<char>) -> bool {
    first_eq_from(s, 0) < s.len()
}

/// The second of the fields that `=` separates in `s`: the text after the
/// first `=` up to the next one or the end.
pub open spec fn second_field(s: Seq<char>) -> Seq<char> {
    let a = first_eq_from(s, 0);
    s.subrange(a + 1, first_eq_from(s, a + 1))
}

/// The capacity that the lines of the capacity file set: the first line
/// that is not a comment decides, by the number after its first `=`; where
/// that is no `u64`, or every line is a comment, the default holds.
pub open spec fn capacity_of_lines(lines: Seq<String>) -> u64
    decreases lines.len(),
{
    if lines.len() == 0 {
        default_capacity()
    } else if is_comment(lines[0]@) {
        capacity_of_lines(lines.drop_first())
    } else {
        match spec_parse_u64(second_field(lines[0]@)) {
            Some(v) => v,
            None => default_capacity(),
        }
    }
}

/// The first line of the capacity file that is not a comment holds an `=`.
pub open spec fn setting_is_assignment(lines: Seq<String>) -> bool
    decreases lines.len(),
{
    if lines.len() == 0 {
        true
    } else if is_comment(lines[0]@) {
        setting_is_assignment(lines.drop_first())
    } else {
        has_eq(lines[0]@)
    }
}

proof fn lemma_first_eq_bounds(s: Seq<char>, from: int)
    requires
        0 <= from,
    ensures
        from <= first_eq_from(s, from) <= s.len() || (from > s.len() && first_eq_from(s, from)
            == s.len()),
        first_eq_from(s, from) < s.len() ==> s[first_eq_from(s, from)] == '=',
    decreases s.len() - from,
{
    if from < s.len() && s[from] != '=' {
        lemma_first_eq_bounds(s, from + 1);
    }
}

/// The position of the first `=` in `s` at or after `from`, or the length
/// of `s` where there is none.
pub(crate) fn find_eq(s: &str, from: usize) -> (r: usize)
    requires
        from <= s@.len(),
    ensures
        r == first_eq_from(s@, from as int),
        from <= r <= s@.len() <= usize::MAX,
{
    let n: usize = s.unicode_len();
    let mut i: usize = from;
    while i < n
        invariant
            n == s@.len(),
            from <= i <= n,
            first_eq_from(s@, from as int) == first_eq_from(s@, i as int),
        decreases n - i,
    {
        if s.get_char(i) == '=' {
            return i;
        }
        i = i + 1;
    }
    i
}

/// Whether `line` is a comment of the capacity file.
fn line_is_comment(line: &str) -> (r: bool)
    ensures
        r == is_comment(line@),
{
    line.unicode_len() > 0 && line.get_char(0) == '#'
}

/// The capacity of the storage pool that the readable lines of the
/// capacity file set, in file order.
pub fn update_storage_capacity(lines: &Vec<String>) -> (r: u64)
    requires
        setting_is_assignment(lines@),
    ensures
        r == capacity_of_lines(lines@),
{
    let mut i: usize = 0;
    assert(lines@.skip(0) =~= lines@);
    while i < lines.len()
        invariant
            i <= lines@.len(),
            capacity_of_lines(lines@) == capacity_of_lines(lines@.skip(i as int)),
            setting_is_assignment(lines@.skip(i as int)),
        decreases lines@.len() - i,
    {
        let line: &str = lines[i].as_str();
        let ghost rest: Seq<String> = lines@.skip(i as int);
        assert(rest[0] == lines@[i as int]);
        assert(rest.drop_first() =~= lines@.skip(i + 1));
        if !line_is_comment(line) {
            let a: usize = find_eq(line, 0);
            assert(has_eq(line@));
            proof {
                lemma_first_eq_bounds(line@, 0);
                lemma_first_eq_bounds(line@, a + 1);
            }
            let b: usize = find_eq(line, a + 1);
            let field: &str = line.substring_char(a + 1, b);
            return match parse_u64(field) {
                Some(v) => v,
                None => 4294967296,
            };
        }
        i = i + 1;
    }
    4294967296
}

/// Whether the first line of the capacity file that is not a comment
/// holds an `=`, as `update_storage_capacity` needs.
pub fn setting_has_value(lines: &Vec<String>) -> (r: bool)
    ensures
        r == setting_is_assignment(lines@),
{
    let mut i: usize = 0;
    assert(lines@.skip(0) =~= lines@);
    while i < lines.len()
        invariant
            i <= lines@.len(),
            setting_is_assignment(lines@) == setting_is_assignment(lines@.skip(i as int)),
        decreases lines@.len() - i,
    {
        let line: &str = lines[i].as_str();
        let ghost rest: Seq<String> = lines@.skip(i as int);
        assert(rest[0] == lines@[i as int]);
        assert(rest.drop_first() =~= lines@.skip(i + 1));
        if !line_is_comment(line) {
            return find_eq(line, 0) < line.unicode_len();
        }
        i = i + 1;
    }
    true
}

/// The directory of a storage container of the camera `id`.
pub open spec fn container_root_text(id: Seq<char>) -> Seq<char> {
    storage_base() + "/"@ + id
}

/// The directory of a storage container of the camera `id`.
pub fn container_save_root(id: &String) -> (r: String)
    ensures
        r@ == container_root_text(id@),
{
    let mut r: String = String::from_str("/var/system/openads/storage/");
    r.append("/");
    r.append(id.as_str());
    r
}

/// The frames waiting in a pool's containers, given each container's
/// count of pending frames.
pub open spec fn total_frames(frame_counts: Seq<usize>) -> int
    decreases frame_counts.len(),
{
    if frame_counts.len() == 0 {
        0
    } else {
        total_frames(frame_counts.drop_last()) + frame_counts.last()
    }
}

proof fn lemma_total_frames_monotone(frame_counts: Seq<usize>, k: int)
    requires
        0 <= k <= frame_counts.len(),
    ensures
        0 <= total_frames(frame_counts.take(k)) <= total_frames(frame_counts),
    decreases frame_counts.len(),
{
    if frame_counts.len() > 0 {
        if k < frame_counts.len() {
            lemma_total_frames_monotone(frame_counts.drop_last(), k);
            assert(frame_counts.drop_last().take(k) =~= frame_counts.take(k));
        } else {
            assert(frame_counts.take(k) =~= frame_counts);
            lemma_total_frames_monotone(frame_counts.drop_last(), k - 1);
            assert(frame_counts.drop_last().take(k - 1) =~= frame_counts.drop_last());
        }
    }
}

/// The jobs queued in a storage pool: the sum of its containers' pending
/// frames, given per container; `None` where the sum does not fit in a
/// `usize`.
pub fn count_jobs_in_queue(frame_counts: &Vec<usize>) -> (r: Option<usize>)
    ensures
        match r {
            Some(n) => n == total_frames(frame_counts@),
            None => total_frames(frame_counts@) > usize::MAX,
        },
{
    let mut count: usize = 0;
    let mut i: usize = 0;
    while i < frame_counts.len()
        invariant
            i <= frame_counts@.len(),
            count == total_frames(frame_counts@.take(i as int)),
        decreases frame_counts@.len() - i,
    {
        let ghost next: Seq<usize> = frame_counts@.take(i + 1);
        assert(next.drop_last() =~= frame_counts@.take(i as int));
        let x: usize = frame_counts[i];
        if count > usize::MAX - x {
            proof {
                lemma_total_frames_monotone(frame_counts@, i + 1);
            }
            return None;
        }
        count = count + x;
        i = i + 1;
    }
    assert(frame_counts@.take(frame_counts@.len() as int) =~= frame_counts@);
    Some(count)
}

/// Where the characters of `s` from `from` up to `t` are no `=`, and `t`
/// is the end of `s` or an `=`, the first `=` from `from` is at `t`.
proof fn lemma_first_eq_at(s: Seq<char>, from: int, t: int)
    requires
        0 <= from <= t <= s.len(),
        forall|j: int| from <= j < t ==> s[j] != '=',
        t == s.len() || s[t] == '=',
    ensures
        first_eq_from(s, from) == t,
    decreases t - from,
{
    if from < t {
        lemma_first_eq_at(s, from + 1, t);
    }
}

/// The capacity file can set any `u64`: where its first line that is not a
/// comment is a key without `=`, then `=`, then the decimal text of `n`,
/// the capacity is `n`.
pub proof fn law_capacity_reads_any_u64(lines: Seq<String>, key: Seq<char>, n: u64)
    requires
        lines.len() > 0,
        lines[0]@ == key + seq!['='] + decimal_digits(n as nat),
        !is_comment(lines[0]@),
        forall|i: int| 0 <= i < key.len() ==> key[i] != '=',
    ensures
        capacity_of_lines(lines) == n,
{
    let s = lines[0]@;
    let d = decimal_digits(n as nat);
    lemma_decimal_digits(n as nat);
    lemma_parse_decimal_digits(n as nat, u64::MAX as int);
    assert forall|j: int| 0 <= j < key.len() implies s[j] != '=' by {
        assert(s[j] == key[j]);
    }
    assert(s[key.len() as int] == '=');
    lemma_first_eq_at(s, 0, key.len() as int);
    assert forall|j: int| key.len() + 1 <= j < s.len() implies s[j] != '=' by {
        assert(s[j] == d[j - key.len() - 1]);
        assert(is_digit(d[j - key.len() - 1]));
    }
    lemma_first_eq_at(s, (key.len() + 1) as int, s.len() as int);
    assert(second_field(s) =~= d);
}

} // verus!
