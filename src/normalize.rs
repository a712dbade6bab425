use vstd::prelude::*;
use vstd::string::*;

verus! {

/// What `char::is_alphanumeric` answers for a character (Unicode `Alphabetic` or `Numeric`).
pub uninterp spec fn alnum(c: char) -> bool;

/// What `str::to_lowercase` returns for a string (the Unicode lowercase mapping).
pub uninterp spec fn lower_of(s: Seq<char>) -> Seq<char>;

/// Relies on `char::is_alphanumeric`: the answer depends on the character alone.
#[verifier::external_body]
fn is_alnum(c: char) -> (r: bool)
    ensures
        r == alnum(c),
{
    c.is_alphanumeric()
}

/// Relies on `str::to_lowercase`: the result depends on the characters alone.
#[verifier::external_body]
fn lowercase(s: &str) -> (r: String)
    ensures
        r@ == lower_of(s@),
        s@.len() == 0 ==> r@.len() == 0,
{
    s.to_lowercase()
}

/// Relies on `String::push`: appends one character.
#[verifier::external_body]
fn push_char(s: &mut String, c: char)
    ensures
        final(s)@ == old(s)@.push(c),
{
    s.push(c)
}

/// The alphanumeric characters of `s`, in order.
pub open spec fn keep_alnum(s: Seq<char>) -> Seq<char>
    decreases s.len(),
{
    if s.len() == 0 {
        s
    } else if alnum(s.last()) {
        keep_alnum(s.drop_last()).push(s.last())
    } else {
        keep_alnum(s.drop_last())
    }
}

/// The key under which an orientation name is looked up: lowercased, with every
/// character that is not alphanumeric removed.
pub open spec fn normalized(s: Seq<char>) -> Seq<char> {
    keep_alnum(lower_of(s))
}

/// The alphanumeric characters of `s`, in order.
pub fn keep_alphanumeric(s: &str) -> (r: String)
    ensures
        r@ == keep_alnum(s@),
{
    let n = s.unicode_len();
    let mut out = String::new();
    let mut i: usize = 0;
    while i < n
        invariant
            n == s@.len(),
            i <= n,
            out@ == keep_alnum(s@.subrange(0, i as int)),
        decreases n - i,
    {
        let c = s.get_char(i);
        proof {
            let pre = s@.subrange(0, i + 1);
            assert(pre.drop_last() =~= s@.subrange(0, i as int));
            assert(pre.last() == c);
        }
        if is_alnum(c) {
            push_char(&mut out, c);
        }
        i += 1;
    }
    proof {
        assert(s@.subrange(0, n as int) =~= s@);
    }
    out
}

/// Lowercases `s` and drops every character that is not alphanumeric
/// ("Bottom-Up" and "bottomup" both give "bottomup").
pub fn normalize(s: &str) -> (r: String)
    ensures
        r@ == normalized(s@),
{
    let lower = lowercase(s);
    keep_alphanumeric(lower.as_str())
}

/// Every character kept is alphanumeric.
pub proof fn lemma_keep_alnum_all_alnum(s: Seq<char>)
    ensures
        forall|i: int| 0 <= i < keep_alnum(s).len() ==> alnum(#[trigger] keep_alnum(s)[i]),
    decreases s.len(),
{
    if s.len() > 0 {
        lemma_keep_alnum_all_alnum(s.drop_last());
        let k = keep_alnum(s.drop_last());
        if alnum(s.last()) {
            assert forall|i: int| 0 <= i < k.push(s.last()).len() implies alnum(
                #[trigger] k.push(s.last())[i],
            ) by {
                if i < k.len() {
                    assert(k.push(s.last())[i] == k[i]);
                }
            }
        }
    }
}

/// A string of alphanumeric characters only is kept whole.
pub proof fn lemma_keep_alnum_of_alnum(s: Seq<char>)
    requires
        forall|i: int| 0 <= i < s.len() ==> alnum(#[trigger] s[i]),
    ensures
        keep_alnum(s) == s,
    decreases s.len(),
{
    if s.len() > 0 {
        lemma_keep_alnum_of_alnum(s.drop_last());
        assert(keep_alnum(s.drop_last()).push(s.last()) =~= s);
    }
}

/// Dropping the characters that are not alphanumeric is idempotent.
pub proof fn lemma_keep_alnum_idempotent(s: Seq<char>)
    ensures
        keep_alnum(keep_alnum(s)) == keep_alnum(s),
{
    lemma_keep_alnum_all_alnum(s);
    lemma_keep_alnum_of_alnum(keep_alnum(s));
}

} // verus!
