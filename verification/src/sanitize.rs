use vstd::prelude::*;

verus! {

/// The characters a query token may contain: ASCII alphanumerics, `-` and `_`.
pub open spec fn allowed_char(c: char) -> bool {
    ('a' <= c && c <= 'z') || ('A' <= c && c <= 'Z') || ('0' <= c && c <= '9') || c == '-' || c
        == '_'
}

/// What sanitizing leaves of a raw name: exactly its allowed characters, in
/// order. Leading and trailing whitespace carries no allowed character, so
/// trimming first changes nothing.
pub open spec fn sanitized_of(s: Seq<char>) -> Seq<char> {
    s.filter(|c: char| allowed_char(c))
}

/// Normalizes a free-text package name into a safe query token. Total: an
/// input with no allowed character yields the empty token.
pub fn sanitize(raw: &str) -> (r: String)
    ensures
        r@ == sanitized_of(raw@),
{
    let n: usize = raw.unicode_len();
    let mut out = String::new();
    let mut i: usize = 0;
    while i < n
        invariant
            n == raw@.len(),
            0 <= i <= n,
            out@ == sanitized_of(raw@.take(i as int)),
        decreases n - i,
    {
        let c = raw.get_char(i);
        let keep = ('a' <= c && c <= 'z') || ('A' <= c && c <= 'Z') || ('0' <= c && c <= '9')
            || c == '-' || c == '_';
        proof {
            reveal(Seq::filter);
            assert(raw@.take(i + 1).drop_last() =~= raw@.take(i as int));
            assert(raw@.take(i + 1).last() == raw@[i as int]);
        }
        if keep {
            let piece = raw.substring_char(i, i + 1);
            proof {
                assert(piece@ =~= seq![raw@[i as int]]);
                assert(sanitized_of(raw@.take(i + 1)) =~= sanitized_of(raw@.take(i as int))
                    + piece@);
            }
            out.append(piece);
        } else {
            proof {
                assert(sanitized_of(raw@.take(i + 1)) =~= sanitized_of(raw@.take(i as int)));
            }
        }
        i = i + 1;
    }
    proof {
        assert(raw@.take(n as int) =~= raw@);
    }
    out
}

/// A name made only of whitespace and disallowed punctuation sanitizes to the
/// empty token; the pipeline then answers with the empty-name reply and never
/// issues a fetch.
pub proof fn lemma_sanitize_disallowed(s: Seq<char>)
    requires
        forall|i: int| 0 <= i < s.len() ==> !allowed_char(s[i]),
    ensures
        sanitized_of(s).len() == 0,
    decreases s.len(),
{
    reveal(Seq::filter);
    if s.len() > 0 {
        lemma_sanitize_disallowed(s.drop_last());
    }
}

/// On input made only of allowed characters the sanitizer is the identity
/// (composed with a trim that removes nothing, since no allowed character is
/// whitespace).
pub proof fn lemma_sanitize_identity(s: Seq<char>)
    requires
        forall|i: int| 0 <= i < s.len() ==> allowed_char(s[i]),
    ensures
        sanitized_of(s) == s,
    decreases s.len(),
{
    reveal(Seq::filter);
    if s.len() > 0 {
        lemma_sanitize_identity(s.drop_last());
        assert(allowed_char(s.last()));
        assert(sanitized_of(s) =~= s.drop_last() + seq![s.last()]);
        assert(s =~= s.drop_last() + seq![s.last()]);
    }
}

} // verus!
