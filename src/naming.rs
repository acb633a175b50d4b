use vstd::prelude::*;
use vstd::string::*;

verus! {

/// Whether `c` has the Unicode Uppercase property, as `char::is_uppercase` reports it.
pub uninterp spec fn is_uppercase_char(c: char) -> bool;

/// The characters that `char::to_lowercase` yields for `c`.
pub uninterp spec fn lower_of_char(c: char) -> Seq<char>;

/// Relies on char::is_uppercase: whether `c` has the Unicode Uppercase property.
#[verifier::external_body]
fn is_upper(c: char) -> (r: bool)
    ensures
        r == is_uppercase_char(c),
{
    c.is_uppercase()
}

/// Relies on char::to_lowercase: the lowercase mapping of `c`, which its
/// documentation gives as one or more characters.
#[verifier::external_body]
fn lower_char(c: char) -> (r: String)
    ensures
        r@ == lower_of_char(c),
        r@.len() >= 1,
{
    c.to_lowercase().collect()
}

/// Relies on String::push: appends one character.
#[verifier::external_body]
pub(crate) fn push_char(s: &mut String, c: char)
    ensures
        final(s)@ == old(s)@.push(c),
{
    s.push(c)
}

pub open spec fn ends_with_underscore(s: Seq<char>) -> bool {
    s.len() > 0 && s.last() == '_'
}

/// The snake-case form of `s`: each uppercase character is replaced by its lowercase
/// mapping, preceded by an underscore unless it is the first character or the text
/// produced so far already ends with an underscore.
pub open spec fn snake_case(s: Seq<char>) -> Seq<char>
    decreases s.len(),
{
    if s.len() == 0 {
        Seq::empty()
    } else {
        let p = snake_case(s.drop_last());
        let c = s.last();
        if is_uppercase_char(c) {
            if s.len() > 1 && !ends_with_underscore(p) {
                p.push('_') + lower_of_char(c)
            } else {
                p + lower_of_char(c)
            }
        } else {
            p.push(c)
        }
    }
}

/// Converts a camel-case name to snake case.
pub fn to_snake_case(s: &str) -> (r: String)
    ensures
        r@ == snake_case(s@),
{
    let n = s.unicode_len();
    let mut out = String::new();
    let mut ends_us = false;
    let mut i: usize = 0;
    while i < n
        invariant
            n == s@.len(),
            i <= n,
            out@ == snake_case(s@.subrange(0, i as int)),
            ends_us == ends_with_underscore(out@),
        decreases n - i,
    {
        let ch = s.get_char(i);
        assert(s@.subrange(0, i + 1).drop_last() =~= s@.subrange(0, i as int));
        if is_upper(ch) {
            if i != 0 && !ends_us {
                push_char(&mut out, '_');
            }
            let lc = lower_char(ch);
            let k = lc.as_str().unicode_len();
            let last = lc.as_str().get_char(k - 1);
            out.append(lc.as_str());
            ends_us = last == '_';
        } else {
            push_char(&mut out, ch);
            ends_us = ch == '_';
        }
        i = i + 1;
    }
    assert(s@.subrange(0, n as int) =~= s@);
    out
}

/// What the idempotence of snake case needs of the Unicode case tables: the
/// underscore is not uppercase, and each uppercase character of `s` lowercases
/// either to itself or to characters that are not uppercase.
pub open spec fn case_mapping_settles(s: Seq<char>) -> bool {
    &&& !is_uppercase_char('_')
    &&& forall|i: int|
        0 <= i < s.len() && is_uppercase_char(#[trigger] s[i]) ==> {
            ||| lower_of_char(s[i]) == seq![s[i]]
            ||| forall|j: int|
                0 <= j < lower_of_char(s[i]).len() ==> !is_uppercase_char(
                    #[trigger] lower_of_char(s[i])[j],
                )
        }
}

/// A text that snake case leaves unchanged: every uppercase character in it maps to
/// itself and stands first or right after an underscore.
pub open spec fn snake_stable(y: Seq<char>) -> bool {
    forall|j: int|
        0 <= j < y.len() && is_uppercase_char(#[trigger] y[j]) ==> (j == 0 || y[j - 1] == '_')
            && lower_of_char(y[j]) == seq![y[j]]
}

proof fn lemma_snake_case_stable(x: Seq<char>)
    requires
        case_mapping_settles(x),
    ensures
        snake_stable(snake_case(x)),
    decreases x.len(),
{
    if x.len() > 0 {
        let xs = x.drop_last();
        assert forall|i: int| 0 <= i < xs.len() && is_uppercase_char(#[trigger] xs[i]) implies {
            ||| lower_of_char(xs[i]) == seq![xs[i]]
            ||| forall|j: int|
                0 <= j < lower_of_char(xs[i]).len() ==> !is_uppercase_char(
                    #[trigger] lower_of_char(xs[i])[j],
                )
        } by {
            assert(xs[i] == x[i]);
        }
        lemma_snake_case_stable(xs);
        let p = snake_case(xs);
        let c = x.last();
        assert(c == x[x.len() - 1]);
        let y = snake_case(x);
        if is_uppercase_char(c) {
            let l = lower_of_char(c);
            let q = if x.len() > 1 && !ends_with_underscore(p) {
                p.push('_')
            } else {
                p
            };
            assert(y == q + l);
            assert(snake_stable(q)) by {
                assert forall|j: int|
                    0 <= j < q.len() && is_uppercase_char(#[trigger] q[j]) implies (j == 0 || q[j
                    - 1] == '_') && lower_of_char(q[j]) == seq![q[j]] by {
                    if j < p.len() {
                        assert(q[j] == p[j]);
                        if j > 0 {
                            assert(q[j - 1] == p[j - 1]);
                        }
                    }
                }
            }
            assert forall|j: int|
                0 <= j < y.len() && is_uppercase_char(#[trigger] y[j]) implies (j == 0 || y[j - 1]
                == '_') && lower_of_char(y[j]) == seq![y[j]] by {
                if j < q.len() {
                    assert(y[j] == q[j]);
                    if j > 0 {
                        assert(y[j - 1] == q[j - 1]);
                    }
                } else {
                    assert(y[j] == l[j - q.len()]);
                    if l != seq![c] {
                        assert(!is_uppercase_char(l[j - q.len()]));
                    } else {
                        assert(j == q.len());
                        assert(y[j] == c);
                        if j > 0 {
                            assert(y[j - 1] == q[j - 1]);
                            if !(x.len() > 1 && !ends_with_underscore(p)) {
                                assert(x.len() > 1);
                                assert(q == p);
                            }
                        }
                    }
                }
            }
        } else {
            assert forall|j: int|
                0 <= j < y.len() && is_uppercase_char(#[trigger] y[j]) implies (j == 0 || y[j - 1]
                == '_') && lower_of_char(y[j]) == seq![y[j]] by {
                assert(j < p.len());
                assert(y[j] == p[j]);
                if j > 0 {
                    assert(y[j - 1] == p[j - 1]);
                }
            }
        }
    }
}

proof fn lemma_snake_case_fixes_stable(y: Seq<char>)
    requires
        snake_stable(y),
    ensures
        snake_case(y) == y,
    decreases y.len(),
{
    if y.len() > 0 {
        let p = y.drop_last();
        assert forall|j: int|
            0 <= j < p.len() && is_uppercase_char(#[trigger] p[j]) implies (j == 0 || p[j - 1]
            == '_') && lower_of_char(p[j]) == seq![p[j]] by {
            assert(p[j] == y[j]);
            if j > 0 {
                assert(p[j - 1] == y[j - 1]);
            }
        }
        lemma_snake_case_fixes_stable(p);
        let c = y.last();
        assert(c == y[y.len() - 1]);
        if is_uppercase_char(c) {
            if y.len() > 1 {
                assert(p.last() == y[y.len() - 2]);
            }
            assert(p + seq![c] =~= y);
        } else {
            assert(p.push(c) =~= y);
        }
    }
}

/// Snake case is idempotent: converting an already converted name changes nothing.
/// The proof rests on the two facts of the Unicode case tables that
/// `case_mapping_settles` names.
pub proof fn lemma_snake_case_idempotent(x: Seq<char>)
    requires
        case_mapping_settles(x),
    ensures
        snake_case(snake_case(x)) == snake_case(x),
{
    lemma_snake_case_stable(x);
    lemma_snake_case_fixes_stable(snake_case(x));
}

} // verus!
