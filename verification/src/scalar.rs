//! Scalar string functions offered to the query engine: lowercasing and
//! left-padding. The padding kernel is written here over characters; the
//! engine-facing array plumbing stays outside the library.
use vstd::prelude::*;
use crate::strutil::push_char;
use crate::strutil::substr_copy;

verus! {

/// The `lower` scalar function.
pub struct LowerFunction;

/// What `str::to_lowercase` returns: a function of the characters alone.
pub uninterp spec fn lower_of(s: Seq<char>) -> Seq<char>;

impl LowerFunction {
    /// Relies on str::to_lowercase: the lowercase mapping of the string,
    /// determined by its characters alone; an empty string stays empty.
    #[verifier::external_body]
    pub fn lower(s: &str) -> (r: String)
        ensures
            r@ == lower_of(s@),
            s@.len() == 0 ==> r@.len() == 0,
    {
        s.to_lowercase()
    }
}

/// The `lpad` scalar function.
pub struct LpadFunction;

/// Left-padding `s` to `size` characters with the pad `p`, cyclically; a
/// string of at least `size` characters is cut to its first `size`.
pub open spec fn spec_lpad(s: Seq<char>, size: int, p: Seq<char>) -> Seq<char>
    recommends
        s.len() < size ==> p.len() > 0,
{
    if s.len() < size {
        Seq::new((size - s.len()) as nat, |i: int| p[i % (p.len() as int)]) + s
    } else {
        s.take(size)
    }
}

impl LpadFunction {
    /// Left-pad `s` to `size` characters with `p`; a longer string is cut to
    /// its first `size` characters. Lengths count characters, not bytes, so
    /// multi-byte text is padded and cut at character boundaries. Padding
    /// with an empty pad is undefined and yields `None`.
    pub fn lpad(s: &str, size: usize, p: &str) -> (r: Option<String>)
        ensures
            (s@.len() >= size || p@.len() > 0) <==> r is Some,
            r matches Some(out) ==> out@ == spec_lpad(s@, size as int, p@),
    {
        let slen = s.unicode_len();
        if slen >= size {
            proof {
                assert(s@.subrange(0, size as int) =~= s@.take(size as int));
            }
            Some(substr_copy(s, 0, size))
        } else {
            let plen = p.unicode_len();
            if plen == 0 {
                return None;
            }
            let count = size - slen;
            let mut out = String::new();
            let mut i: usize = 0;
            while i < count
                invariant
                    plen == p@.len(),
                    plen > 0,
                    i <= count,
                    out@ == Seq::new(i as nat, |j: int| p@[j % (plen as int)]),
                decreases count - i,
            {
                push_char(&mut out, p.get_char(i % plen));
                proof {
                    assert(out@ =~= Seq::new((i + 1) as nat, |j: int| p@[j % (plen as int)]));
                }
                i = i + 1;
            }
            out.append(s);
            proof {
                assert(out@ =~= Seq::new(
                    (size - s@.len()) as nat,
                    |j: int| p@[j % (p@.len() as int)],
                ) + s@);
            }
            Some(out)
        }
    }
}

} // verus!
