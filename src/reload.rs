use vstd::prelude::*;
use vstd::string::StrSliceExecFns;
use crate::error::ThemeError;

verus! {

/// What `str::trim` leaves of a string.
pub uninterp spec fn trim_of(s: Seq<char>) -> Seq<char>;

/// `part` is a contiguous run of `whole`.
pub open spec fn is_part_of(part: Seq<char>, whole: Seq<char>) -> bool {
    exists|i: int, j: int| 0 <= i <= j <= whole.len() && part == whole.subrange(i, j)
}

/// Relies on `str::trim`: the string without leading and trailing whitespace,
/// so a contiguous part of it.
#[verifier::external_body]
fn trim_str(s: &str) -> (r: &str)
    ensures
        r@ == trim_of(s@),
        is_part_of(r@, s@),
{
    s.trim()
}

/// Position of the first newline at or after `i`, or the length.
pub open spec fn first_newline(s: Seq<char>, i: int) -> int
    decreases s.len() - i,
{
    if i < 0 || i >= s.len() {
        s.len() as int
    } else if s[i] == '\n' {
        i
    } else {
        first_newline(s, i + 1)
    }
}

/// An ASCII decimal digit.
pub open spec fn is_digit(c: char) -> bool {
    '0' <= c && c <= '9'
}

/// Length of the run of decimal digits that starts at `i`.
pub open spec fn digits_from(s: Seq<char>, i: int) -> int
    decreases s.len() - i,
{
    if i < 0 || i >= s.len() || !is_digit(s[i]) {
        0
    } else {
        1 + digits_from(s, i + 1)
    }
}

/// The process id a line of `pgrep -a` output starts with: the leading
/// digits once surrounding whitespace is trimmed.
pub open spec fn pid_of_line(line: Seq<char>) -> Seq<char> {
    let t = trim_of(line);
    t.subrange(0, digits_from(t, 0))
}

/// The process ids of the lines from position `i` on, skipping lines that
/// hold none.
pub open spec fn pids_from(s: Seq<char>, i: int) -> Seq<Seq<char>>
    decreases s.len() - i,
{
    if i < 0 || i > s.len() {
        Seq::empty()
    } else {
        let p = first_newline(s, i);
        let pid = pid_of_line(s.subrange(i, p));
        let here = if pid.len() > 0 { seq![pid] } else { Seq::empty() };
        if p >= s.len() || p < i {
            here
        } else {
            here + pids_from(s, p + 1)
        }
    }
}

proof fn lemma_first_newline_bounds(s: Seq<char>, i: int)
    requires
        0 <= i <= s.len(),
    ensures
        i <= first_newline(s, i) <= s.len(),
        first_newline(s, i) < s.len() ==> s[first_newline(s, i)] == '\n',
    decreases s.len() - i,
{
    if i < s.len() && s[i] != '\n' {
        lemma_first_newline_bounds(s, i + 1);
    }
}

fn leading_digits(s: &str) -> (r: String)
    ensures
        r@ == s@.subrange(0, digits_from(s@, 0)),
{
    let len = s.unicode_len();
    let mut n: usize = 0;
    while n < len && '0' <= s.get_char(n) && s.get_char(n) <= '9'
        invariant
            n <= len,
            len == s@.len(),
            forall|j: int| 0 <= j < n ==> is_digit(#[trigger] s@[j]),
            digits_from(s@, 0) == n + digits_from(s@, n as int),
        decreases len - n,
    {
        n = n + 1;
    }
    proof {
        assert(digits_from(s@, n as int) == 0);
    }
    s.substring_char(0, n).to_string()
}

/// The process ids listed by `pgrep -a` output, one per line that starts with
/// one, in order.
pub fn reload_targets(output: &str) -> (r: Vec<String>)
    ensures
        r@.map_values(|s: String| s@) == pids_from(output@, 0),
{
    let len = output.unicode_len();
    let mut out: Vec<String> = Vec::new();
    let mut i: usize = 0;
    loop
        invariant
            i <= len,
            len == output@.len(),
            pids_from(output@, 0) == out@.map_values(|s: String| s@) + pids_from(output@, i as int),
        decreases len - i,
    {
        let mut p: usize = i;
        while p < len && output.get_char(p) != '\n'
            invariant
                i <= p <= len,
                len == output@.len(),
                first_newline(output@, i as int) == first_newline(output@, p as int),
            decreases len - p,
        {
            p = p + 1;
        }
        proof {
            lemma_first_newline_bounds(output@, p as int);
        }
        let ghost before = out@.map_values(|s: String| s@);
        let line = output.substring_char(i, p);
        let pid = leading_digits(trim_str(line));
        let ghost here = if pid@.len() > 0 { seq![pid@] } else { Seq::<Seq<char>>::empty() };
        if pid.unicode_len() > 0 {
            out.push(pid);
            assert(out@.map_values(|s: String| s@) =~= before + here);
        } else {
            assert(out@.map_values(|s: String| s@) =~= before + here);
        }
        if p >= len {
            assert(pids_from(output@, i as int) == here);
            assert(pids_from(output@, 0) =~= out@.map_values(|s: String| s@));
            return out;
        }
        assert(pids_from(output@, i as int) == here + pids_from(output@, p + 1));
        assert(pids_from(output@, 0) =~= out@.map_values(|s: String| s@) + pids_from(output@, p + 1));
        i = p + 1;
    }
}

/// The result of an apply once the configuration is saved. A failed external
/// apply command is reported as such, since the saved configuration stays;
/// signalling terminals comes after and never fails the apply.
pub fn apply_outcome(command_succeeded: bool) -> (r: Result<(), ThemeError>)
    ensures
        command_succeeded ==> r is Ok,
        !command_succeeded ==> r == Err::<(), ThemeError>(ThemeError::ExternalCommand),
{
    if command_succeeded {
        Ok(())
    } else {
        Err(ThemeError::ExternalCommand)
    }
}

} // verus!
