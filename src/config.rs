use crate::clock::{trim, trim_of};
use vstd::prelude::*;

verus! {

/// Why the run's settings were refused.
#[derive(PartialEq, Eq, Debug)]
pub enum ConfigError {
    /// The batch size is not a positive integer.
    InvalidBatchSize,
}

pub open spec fn is_digit(c: char) -> bool {
    '0' <= c && c <= '9'
}

pub open spec fn all_digits(s: Seq<char>) -> bool {
    forall|i: int| 0 <= i < s.len() ==> is_digit(#[trigger] s[i])
}

/// The value of a text of decimal digits.
pub open spec fn digits_value(s: Seq<char>) -> int
    decreases s.len(),
{
    if s.len() == 0 {
        0
    } else {
        digits_value(s.drop_last()) * 10 + (s.last() as int - '0' as int)
    }
}

/// The text without one leading `+`.
pub open spec fn unsigned_part(s: Seq<char>) -> Seq<char> {
    if s.len() > 0 && s[0] == '+' {
        s.subrange(1, s.len() as int)
    } else {
        s
    }
}

/// A text that names a positive batch size that fits a `usize`.
pub open spec fn valid_batch_text(s: Seq<char>) -> bool {
    let d = unsigned_part(s);
    d.len() > 0 && all_digits(d) && 0 < digits_value(d) <= usize::MAX
}

proof fn lemma_digits_value_nonneg(s: Seq<char>)
    requires
        all_digits(s),
    ensures
        digits_value(s) >= 0,
    decreases s.len(),
{
    if s.len() > 0 {
        let t = s.drop_last();
        assert forall|i: int| 0 <= i < t.len() implies is_digit(#[trigger] t[i]) by {
            assert(t[i] == s[i]);
        }
        lemma_digits_value_nonneg(t);
    }
}

proof fn lemma_digits_value_grows(s: Seq<char>, i: int, j: int)
    requires
        all_digits(s),
        0 <= i <= j <= s.len(),
    ensures
        0 <= digits_value(s.subrange(0, i)) <= digits_value(s.subrange(0, j)),
    decreases j,
{
    if j > i {
        lemma_digits_value_grows(s, i, j - 1);
        let p = s.subrange(0, j);
        assert(p.drop_last() =~= s.subrange(0, j - 1));
        assert(is_digit(s[j - 1]));
    } else {
        let p = s.subrange(0, i);
        assert forall|k: int| 0 <= k < p.len() implies is_digit(#[trigger] p[k]) by {
            assert(p[k] == s[k]);
        }
        lemma_digits_value_nonneg(p);
    }
}

/// The batch size of a run: 1 where none is given, else the given text read
/// as a positive decimal integer (one leading `+` allowed).
pub fn parse_batch_size(arg: Option<&str>) -> (r: Result<usize, ConfigError>)
    ensures
        arg.is_none() ==> r == Ok::<usize, ConfigError>(1),
        arg.is_some() && valid_batch_text(arg.unwrap()@) ==> r == Ok::<usize, ConfigError>(
            digits_value(unsigned_part(arg.unwrap()@)) as usize,
        ),
        arg.is_some() && !valid_batch_text(arg.unwrap()@) ==> r == Err::<usize, ConfigError>(
            ConfigError::InvalidBatchSize,
        ),
{
    let s = match arg {
        None => {
            return Ok(1);
        },
        Some(s) => s,
    };
    let n = s.unicode_len();
    let start: usize = if n > 0 && s.get_char(0) == '+' {
        1
    } else {
        0
    };
    let ghost d = unsigned_part(s@);
    assert(d =~= s@.subrange(start as int, n as int));
    if start == n {
        return Err(ConfigError::InvalidBatchSize);
    }
    let mut acc: usize = 0;
    let mut i: usize = start;
    while i < n
        invariant
            n == s@.len(),
            start <= i <= n,
            arg == Some(s),
            d == unsigned_part(s@),
            d =~= s@.subrange(start as int, n as int),
            all_digits(d.subrange(0, i - start)),
            acc as int == digits_value(d.subrange(0, i - start)),
        decreases n - i,
    {
        let c = s.get_char(i);
        if !('0' <= c && c <= '9') {
            assert(!is_digit(d[i - start]));
            return Err(ConfigError::InvalidBatchSize);
        }
        let dv: usize = (c as u32 - 48) as usize;
        let ghost p = d.subrange(0, i - start + 1);
        assert(p.drop_last() =~= d.subrange(0, i - start));
        assert(all_digits(p));
        if acc > (usize::MAX - dv) / 10 {
            proof {
                assert(acc * 10 + dv > usize::MAX) by (nonlinear_arith)
                    requires
                        acc > (usize::MAX - dv) / 10,
                        dv <= 9,
                ;
                if all_digits(d) {
                    assert(d.subrange(0, d.len() as int) =~= d);
                    lemma_digits_value_grows(d, i - start + 1, d.len() as int);
                    assert(p =~= d.subrange(0, i - start + 1));
                }
            }
            return Err(ConfigError::InvalidBatchSize);
        }
        proof {
            assert(acc * 10 + dv <= usize::MAX) by (nonlinear_arith)
                requires
                    acc <= (usize::MAX - dv) / 10,
                    dv <= 9,
            ;
        }
        acc = acc * 10 + dv;
        i = i + 1;
    }
    assert(d.subrange(0, d.len() as int) =~= d);
    if acc == 0 {
        Err(ConfigError::InvalidBatchSize)
    } else {
        Ok(acc)
    }
}

/// What to do about a directory the run needs.
#[derive(PartialEq, Eq, Debug)]
pub enum DirAction {
    /// It exists: nothing to do.
    Keep,
    /// Create it with its missing ancestors.
    Create,
    /// Ask the user whether to create it.
    Ask,
    /// The user refused: abort the run.
    Abort,
}

/// Decides what to do about a directory, from whether it exists, whether
/// creation is forced, and the user's answer once asked.
pub fn dir_action(exists: bool, force: bool, answer: Option<bool>) -> (r: DirAction)
    ensures
        exists ==> r == DirAction::Keep,
        !exists && force ==> r == DirAction::Create,
        !exists && !force && answer == Some(true) ==> r == DirAction::Create,
        !exists && !force && answer == Some(false) ==> r == DirAction::Abort,
        !exists && !force && answer.is_none() ==> r == DirAction::Ask,
{
    if exists {
        DirAction::Keep
    } else if force {
        DirAction::Create
    } else {
        match answer {
            None => DirAction::Ask,
            Some(true) => DirAction::Create,
            Some(false) => DirAction::Abort,
        }
    }
}

/// The answer `y` or `Y`.
pub open spec fn is_yes(t: Seq<char>) -> bool {
    t == seq!['y'] || t == seq!['Y']
}

/// Whether an already trimmed answer is a yes.
pub fn is_yes_answer(t: &str) -> (r: bool)
    ensures
        r == is_yes(t@),
{
    if t.unicode_len() != 1 {
        return false;
    }
    let c = t.get_char(0);
    let r = c == 'y' || c == 'Y';
    proof {
        if r {
            assert(t@ =~= seq![c]);
        }
    }
    r
}

/// Whether a line typed at the prompt confirms: `y` in either case, with
/// surrounding whitespace ignored.
pub fn confirms(response: &str) -> (r: bool)
    ensures
        r == is_yes(trim_of(response@)),
{
    is_yes_answer(trim(response))
}

} // verus!
