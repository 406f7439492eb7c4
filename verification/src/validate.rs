//! Prompt validation.
//!
//! A prompt is trimmed of surrounding white space, rejected when nothing is
//! left or when more than the maximum number of characters is left, and
//! otherwise passed on trimmed. Validation happens before any model or
//! store interaction.

use vstd::prelude::*;
use vstd::string::*;
use crate::errors::{DomainError, DomainResult, ErrorKind};

verus! {

/// Longest prompt, in characters after trimming, that the gateway accepts.
pub const MAX_PROMPT_CHARS: usize = 10000;

/// The Unicode white-space characters, the set `str::trim` removes.
pub open spec fn is_space(c: char) -> bool {
    let u = c as u32;
    u == 0x9 || u == 0xA || u == 0xB || u == 0xC || u == 0xD || u == 0x20 || u == 0x85 || u == 0xA0
        || u == 0x1680 || (0x2000 <= u && u <= 0x200A) || u == 0x2028 || u == 0x2029 || u == 0x202F
        || u == 0x205F || u == 0x3000
}

fn is_space_exec(c: char) -> (r: bool)
    ensures
        r == is_space(c),
{
    let u = c as u32;
    u == 0x9 || u == 0xA || u == 0xB || u == 0xC || u == 0xD || u == 0x20 || u == 0x85 || u == 0xA0
        || u == 0x1680 || (0x2000 <= u && u <= 0x200A) || u == 0x2028 || u == 0x2029 || u == 0x202F
        || u == 0x205F || u == 0x3000
}

/// The text with its leading white space removed.
pub open spec fn trim_front(s: Seq<char>) -> Seq<char>
    decreases s.len(),
{
    if s.len() > 0 && is_space(s[0]) {
        trim_front(s.skip(1))
    } else {
        s
    }
}

/// The text with its trailing white space removed.
pub open spec fn trim_back(s: Seq<char>) -> Seq<char>
    decreases s.len(),
{
    if s.len() > 0 && is_space(s[s.len() - 1]) {
        trim_back(s.take(s.len() - 1))
    } else {
        s
    }
}

/// The text with white space removed at both ends, as `str::trim` leaves it.
pub open spec fn trim_spec(s: Seq<char>) -> Seq<char> {
    trim_back(trim_front(s))
}

/// A prompt is accepted exactly when something is left after trimming and
/// no more than the maximum.
pub open spec fn prompt_ok(p: Seq<char>) -> bool {
    0 < trim_spec(p).len() <= MAX_PROMPT_CHARS
}

/// Skipping a known run of white space does not change the trimmed front.
proof fn lemma_trim_front_skip(s: Seq<char>, i: int)
    requires
        0 <= i <= s.len(),
        forall|j: int| 0 <= j < i ==> is_space(s[j]),
    ensures
        trim_front(s) == trim_front(s.skip(i)),
    decreases i,
{
    if i == 0 {
        assert(s.skip(0) =~= s);
    } else {
        assert(is_space(s[0]));
        lemma_trim_front_skip(s.skip(1), i - 1);
        assert(s.skip(1).skip(i - 1) =~= s.skip(i));
    }
}

/// Dropping a known run of trailing white space does not change the
/// trimmed back.
proof fn lemma_trim_back_take(s: Seq<char>, i: int)
    requires
        0 <= i <= s.len(),
        forall|j: int| i <= j < s.len() ==> is_space(s[j]),
    ensures
        trim_back(s) == trim_back(s.take(i)),
    decreases s.len() - i,
{
    if i == s.len() {
        assert(s.take(i) =~= s);
    } else {
        assert(is_space(s[s.len() - 1]));
        lemma_trim_back_take(s.take(s.len() - 1), i);
        assert(s.take(s.len() - 1).take(i) =~= s.take(i));
    }
}

/// Trim the text as `str::trim` does: drop white space at both ends.
pub fn trim(s: &str) -> (r: String)
    ensures
        r@ == trim_spec(s@),
{
    let n = s.unicode_len();
    let mut lo: usize = 0;
    while lo < n && is_space_exec(s.get_char(lo))
        invariant
            lo <= n,
            n == s@.len(),
            forall|j: int| 0 <= j < lo ==> is_space(s@[j]),
        decreases n - lo,
    {
        lo += 1;
    }
    proof {
        lemma_trim_front_skip(s@, lo as int);
        if lo < n {
            assert(s@.skip(lo as int)[0] == s@[lo as int]);
        }
        assert(trim_front(s@) == s@.skip(lo as int));
    }
    let mut hi: usize = n;
    while hi > lo && is_space_exec(s.get_char(hi - 1))
        invariant
            lo <= hi <= n,
            n == s@.len(),
            forall|j: int| hi <= j < n ==> is_space(s@[j]),
        decreases hi,
    {
        hi -= 1;
    }
    proof {
        let front = s@.skip(lo as int);
        lemma_trim_back_take(front, hi - lo);
        if hi > lo {
            assert(front.take(hi - lo)[hi - lo - 1] == s@[hi as int - 1]);
        }
        assert(trim_back(front) == front.take(hi - lo));
        assert(front.take(hi - lo) =~= s@.subrange(lo as int, hi as int));
    }
    let piece = s.substring_char(lo, hi);
    piece.to_owned()
}

/// Check a prompt: reject an empty or an oversized one as a validation
/// failure, and hand back the trimmed text otherwise.
pub fn validate_prompt(prompt: &str) -> (r: DomainResult<String>)
    ensures
        r is Ok <==> prompt_ok(prompt@),
        r is Ok ==> r.unwrap()@ == trim_spec(prompt@),
        r is Err ==> r.unwrap_err().spec_kind() == ErrorKind::Validation,
        trim_spec(prompt@).len() == 0 ==> (r matches Result::Err(e)
            && e.spec_message() == "El prompt no puede estar vac\u{ed}o"@),
        trim_spec(prompt@).len() > MAX_PROMPT_CHARS ==> (r matches Result::Err(e)
            && e.spec_message() == "El prompt excede el l\u{ed}mite de 10,000 caracteres"@),
{
    let trimmed = trim(prompt);
    if trimmed.as_str().unicode_len() == 0 {
        return Err(DomainError::validation("El prompt no puede estar vac\u{ed}o"));
    }
    if trimmed.as_str().unicode_len() > MAX_PROMPT_CHARS {
        return Err(DomainError::validation("El prompt excede el l\u{ed}mite de 10,000 caracteres"));
    }
    Ok(trimmed)
}

} // verus!
