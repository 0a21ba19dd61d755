//! Input validation for passwords and email addresses, and the generator
//! of temporary passwords.

use vstd::prelude::*;

verus! {

/// A character admitted in a password.
pub open spec fn is_password_char(c: char) -> bool {
    ('a' <= c && c <= 'z') || ('A' <= c && c <= 'Z') || ('0' <= c && c <= '9') || c == '.' || c
        == '_' || c == '+' || c == '-' || c == '!' || c == '?'
}

/// A valid password: 10 to 64 characters, all from the admitted set.
pub open spec fn spec_valid_password(s: Seq<char>) -> bool {
    10 <= s.len() <= 64 && forall|i: int| 0 <= i < s.len() ==> is_password_char(#[trigger] s[i])
}

/// A character admitted in the local part of an email address.
pub open spec fn is_local_char(c: char) -> bool {
    ('a' <= c && c <= 'z') || ('A' <= c && c <= 'Z') || ('0' <= c && c <= '9') || c == '.' || c
        == '_' || c == '%' || c == '+' || c == '-'
}

/// A character admitted in the domain of an email address.
pub open spec fn is_domain_char(c: char) -> bool {
    ('a' <= c && c <= 'z') || ('A' <= c && c <= 'Z') || ('0' <= c && c <= '9') || c == '.' || c
        == '-'
}

/// A letter.
pub open spec fn is_alpha(c: char) -> bool {
    ('a' <= c && c <= 'z') || ('A' <= c && c <= 'Z')
}

/// The shape of a valid email address with its separators at `at` and
/// `dot`: a nonempty local part, `@`, a nonempty domain, and a final
/// label of at least two letters after the last dot.
pub open spec fn email_shape(s: Seq<char>, at: int, dot: int) -> bool {
    &&& 1 <= at
    &&& at + 2 <= dot
    &&& dot + 3 <= s.len()
    &&& s[at] == '@'
    &&& s[dot] == '.'
    &&& forall|i: int| 0 <= i < at ==> is_local_char(#[trigger] s[i])
    &&& forall|i: int| at < i < dot ==> is_domain_char(#[trigger] s[i])
    &&& forall|i: int| dot < i < s.len() ==> is_alpha(#[trigger] s[i])
}

/// A valid email address: some choice of separators gives it the shape.
pub open spec fn spec_valid_email(s: Seq<char>) -> bool {
    exists|at: int, dot: int| email_shape(s, at, dot)
}

/// Checks a password: 10 to 64 characters, letters, digits or
/// `. _ + - ! ?`.
pub fn is_valid_password(password: &str) -> (r: bool)
    ensures
        r == spec_valid_password(password@),
{
    let n = password.unicode_len();
    if n < 10 || n > 64 {
        return false;
    }
    let mut i: usize = 0;
    while i < n
        invariant
            n == password@.len(),
            i <= n,
            forall|k: int| 0 <= k < i ==> is_password_char(#[trigger] password@[k]),
        decreases n - i,
    {
        let c = password.get_char(i);
        let ok = ('a' <= c && c <= 'z') || ('A' <= c && c <= 'Z') || ('0' <= c && c <= '9') || c
            == '.' || c == '_' || c == '+' || c == '-' || c == '!' || c == '?';
        if !ok {
            return false;
        }
        i = i + 1;
    }
    true
}

/// Checks an email address against the shape `local@domain.tld`: local
/// characters before a single `@`, domain characters after it, and at
/// least two letters after the last dot of the domain.
pub fn is_valid_email(email: &str) -> (r: bool)
    ensures
        r == spec_valid_email(email@),
{
    let n = email.unicode_len();
    // find the first '@'
    let mut at: usize = 0;
    let mut found_at = false;
    let mut i: usize = 0;
    while i < n && !found_at
        invariant
            n == email@.len(),
            i <= n,
            !found_at ==> forall|k: int| 0 <= k < i ==> email@[k] != '@',
            found_at ==> at < n && email@[at as int] == '@' && forall|k: int|
                0 <= k < at ==> email@[k] != '@',
        decreases n - i + (if found_at { 0int } else { 1int }),
    {
        let c = email.get_char(i);
        if c == '@' {
            at = i;
            found_at = true;
        } else {
            i = i + 1;
        }
    }
    if !found_at {
        proof {
            assert forall|a: int, d: int| !email_shape(email@, a, d) by {
                if email_shape(email@, a, d) {
                    assert(email@[a] == '@');
                }
            }
        }
        return false;
    }
    if at == 0 {
        proof {
            assert forall|a: int, d: int| !email_shape(email@, a, d) by {
                if email_shape(email@, a, d) {
                    // the candidate separator cannot sit left of the first '@',
                    // and a '@' is not a local character
                    assert(!is_local_char('@'));
                    if a > 0 {
                        assert(email@[0] == '@');
                    }
                }
            }
        }
        return false;
    }
    // every character left of the '@' must be a local character
    let mut i: usize = 0;
    while i < at
        invariant
            n == email@.len(),
            at < n,
            email@[at as int] == '@',
            forall|k: int| 0 <= k < at ==> email@[k] != '@',
            i <= at,
            forall|k: int| 0 <= k < i ==> is_local_char(#[trigger] email@[k]),
        decreases at - i,
    {
        let c = email.get_char(i);
        let ok = ('a' <= c && c <= 'z') || ('A' <= c && c <= 'Z') || ('0' <= c && c <= '9') || c
            == '.' || c == '_' || c == '%' || c == '+' || c == '-';
        if !ok {
            proof {
                assert(!is_local_char(email@[i as int]));
                assert forall|a: int, d: int| !email_shape(email@, a, d) by {
                    if email_shape(email@, a, d) {
                        lemma_at_unique(email@, at as int, a, d);
                        assert(is_local_char(email@[i as int]));
                    }
                }
            }
            return false;
        }
        i = i + 1;
    }
    // scan the domain: all domain characters, remembering the last dot
    let mut dot: usize = 0;
    let mut found_dot = false;
    let mut i: usize = at + 1;
    while i < n
        invariant
            n == email@.len(),
            at < n,
            email@[at as int] == '@',
            forall|k: int| 0 <= k < at ==> email@[k] != '@',
            forall|k: int| 0 <= k < at ==> is_local_char(#[trigger] email@[k]),
            at < i <= n,
            forall|k: int| at < k < i ==> is_domain_char(#[trigger] email@[k]),
            found_dot ==> at < dot < i && email@[dot as int] == '.' && forall|k: int|
                dot < k < i ==> email@[k] != '.',
            !found_dot ==> forall|k: int| at < k < i ==> email@[k] != '.',
        decreases n - i,
    {
        let c = email.get_char(i);
        let ok = ('a' <= c && c <= 'z') || ('A' <= c && c <= 'Z') || ('0' <= c && c <= '9') || c
            == '.' || c == '-';
        if !ok {
            proof {
                assert(!is_domain_char(email@[i as int]) && !is_alpha(email@[i as int]));
                assert forall|a: int, d: int| !email_shape(email@, a, d) by {
                    if email_shape(email@, a, d) {
                        lemma_at_unique(email@, at as int, a, d);
                        assert(is_domain_char('.'));
                    }
                }
            }
            return false;
        }
        if c == '.' {
            dot = i;
            found_dot = true;
        }
        i = i + 1;
    }
    if !found_dot {
        proof {
            assert forall|a: int, d: int| !email_shape(email@, a, d) by {
                if email_shape(email@, a, d) {
                    lemma_at_unique(email@, at as int, a, d);
                    assert(email@[d] == '.');
                }
            }
        }
        return false;
    }
    if dot - at < 2 || n - dot < 3 {
        proof {
            assert forall|a: int, d: int| !email_shape(email@, a, d) by {
                if email_shape(email@, a, d) {
                    lemma_at_unique(email@, at as int, a, d);
                    lemma_dot_is_last(email@, a, dot as int, d);
                }
            }
        }
        return false;
    }
    // at least two letters, and nothing else, after the last dot
    let mut i: usize = dot + 1;
    while i < n
        invariant
            n == email@.len(),
            at < n,
            email@[at as int] == '@',
            forall|k: int| 0 <= k < at ==> email@[k] != '@',
            forall|k: int| 0 <= k < at ==> is_local_char(#[trigger] email@[k]),
            forall|k: int| at < k < n ==> is_domain_char(#[trigger] email@[k]),
            at < dot < n,
            email@[dot as int] == '.',
            forall|k: int| dot < k < n ==> email@[k] != '.',
            at + 2 <= dot,
            dot + 3 <= n,
            dot < i <= n,
            forall|k: int| dot < k < i ==> is_alpha(#[trigger] email@[k]),
        decreases n - i,
    {
        let c = email.get_char(i);
        let ok = ('a' <= c && c <= 'z') || ('A' <= c && c <= 'Z');
        if !ok {
            proof {
                assert forall|a: int, d: int| !email_shape(email@, a, d) by {
                    if email_shape(email@, a, d) {
                        lemma_at_unique(email@, at as int, a, d);
                        lemma_dot_is_last(email@, a, dot as int, d);
                    }
                }
            }
            return false;
        }
        i = i + 1;
    }
    proof {
        assert(email_shape(email@, at as int, dot as int));
    }
    true
}

/// In a shaped address the `@` found first from the left is the
/// separator: local and domain characters are never `@`.
proof fn lemma_at_unique(s: Seq<char>, at: int, a: int, d: int)
    requires
        0 <= at < s.len(),
        s[at] == '@',
        forall|k: int| 0 <= k < at ==> s[k] != '@',
        email_shape(s, a, d),
    ensures
        a == at,
{
    assert(!is_local_char('@') && !is_domain_char('@') && !is_alpha('@'));
    if a < at {
        assert(s[a] == '@');
    } else if a > at {
        assert(is_local_char(s[at]));
    }
}

/// In a shaped address whose separator `@` is `at`, the shape's dot is
/// the last dot of the string: only letters may follow it.
proof fn lemma_dot_is_last(s: Seq<char>, a: int, dot: int, d: int)
    requires
        email_shape(s, a, d),
        a < dot < s.len(),
        s[dot] == '.',
        forall|k: int| dot < k < s.len() ==> s[k] != '.',
    ensures
        d == dot,
{
    assert(!is_alpha('.'));
    if d < dot {
        assert(s[dot] == '.');
        assert(is_alpha(s[dot]));
    } else if d > dot {
        assert(s[d] == '.');
    }
}

/// Relies on uuid's `Uuid::new_v4` and its hyphenated rendering: a fresh
/// random identifier always prints as 36 characters. The value is
/// random, so nothing more is promised of it. If the operating system's
/// randomness source itself fails, the underlying generator aborts the
/// process — an environmental failure on a par with running out of
/// memory.
#[verifier::external_body]
pub fn generate_random_password() -> (r: String)
    ensures
        r@.len() == 36,
{
    uuid::Uuid::new_v4().to_string()
}

} // verus!
