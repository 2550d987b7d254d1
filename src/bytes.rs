//! Small operations on byte strings used to check and rewrite device paths.
use vstd::prelude::*;

verus! {

/// The byte `/`.
pub const SLASH: u8 = 47;

/// The bytes of an ASCII text.
pub open spec fn ascii(t: Seq<char>) -> Seq<u8> {
    Seq::new(t.len(), |i: int| t[i] as u8)
}

/// The bytes of the ASCII literal `t`.
pub fn literal_bytes(t: &str) -> (r: &[u8])
    requires
        vstd::string::is_ascii(t),
    ensures
        r@ == ascii(t@),
{
    proof {
        vstd::string::is_ascii_spec_bytes(t);
    }
    t.as_bytes()
}

/// `s` begins with `prefix`.
pub open spec fn starts_with(s: Seq<u8>, prefix: Seq<u8>) -> bool {
    prefix.len() <= s.len() && s.take(prefix.len() as int) == prefix
}

/// Index just past the last `/` among the first `i` bytes of `p`, or 0.
pub open spec fn base_start(p: Seq<u8>, i: int) -> int
    decreases i,
{
    if i <= 0 {
        0
    } else if p[i - 1] == SLASH {
        i
    } else {
        base_start(p, i - 1)
    }
}

/// What follows the last `/` of `p`; all of `p` if it holds none.
pub open spec fn basename(p: Seq<u8>) -> Seq<u8> {
    p.subrange(base_start(p, p.len() as int), p.len() as int)
}

/// Whether `s` begins with `prefix`.
pub fn has_prefix(s: &[u8], prefix: &[u8]) -> (r: bool)
    ensures
        r == starts_with(s@, prefix@),
{
    if prefix.len() > s.len() {
        return false;
    }
    let mut i: usize = 0;
    while i < prefix.len()
        invariant
            prefix@.len() <= s@.len(),
            i <= prefix@.len(),
            s@.take(i as int) == prefix@.take(i as int),
        decreases prefix.len() - i,
    {
        if s[i] != prefix[i] {
            assert(s@.take(prefix@.len() as int)[i as int] != prefix@[i as int]);
            return false;
        }
        i = i + 1;
        assert(s@.take(i as int) =~= prefix@.take(i as int));
    }
    assert(prefix@.take(i as int) =~= prefix@);
    true
}

/// The last component of the path `p`.
pub fn last_component(p: &[u8]) -> (r: Vec<u8>)
    ensures
        r@ == basename(p@),
{
    let mut i: usize = p.len();
    while i > 0 && p[i - 1] != SLASH
        invariant
            i <= p@.len(),
            base_start(p@, i as int) == base_start(p@, p@.len() as int),
        decreases i,
    {
        i = i - 1;
    }
    let start = i;
    let mut r: Vec<u8> = Vec::new();
    while i < p.len()
        invariant
            start <= i <= p@.len(),
            r@ == p@.subrange(start as int, i as int),
        decreases p.len() - i,
    {
        r.push(p[i]);
        i = i + 1;
        assert(r@ =~= p@.subrange(start as int, i as int));
    }
    r
}

/// Appends the bytes of `s` to `v`.
pub fn append_bytes(v: &mut Vec<u8>, s: &[u8])
    ensures
        final(v)@ == old(v)@ + s@,
{
    let ghost start = v@;
    let mut i: usize = 0;
    while i < s.len()
        invariant
            i <= s@.len(),
            v@ == start + s@.take(i as int),
        decreases s.len() - i,
    {
        v.push(s[i]);
        i = i + 1;
        assert(v@ =~= start + s@.take(i as int));
    }
    assert(s@.take(i as int) =~= s@);
}

} // verus!
