//! File-system paths, joined the way `Path::join` joins them on Unix: as
//! text, and as the raw bytes of a path (which need not be UTF-8).

use vstd::prelude::*;
use vstd::utf8::{encode_scalar, encode_utf8};
use crate::text::{chars_of, push_str};

verus! {

/// `base.join(comp)` on Unix: an absolute `comp` replaces `base`; otherwise
/// `comp` is appended, with a `/` between unless `base` is empty or already
/// ends in `/`.
pub open spec fn spec_path_join(base: Seq<char>, comp: Seq<char>) -> Seq<char> {
    if comp.len() > 0 && comp[0] == '/' {
        comp
    } else if base.len() == 0 || base[base.len() - 1] == '/' {
        base + comp
    } else {
        base + seq!['/'] + comp
    }
}

/// `base` joined with `comp`.
pub fn path_join(base: &str, comp: &str) -> (r: String)
    ensures
        r@ == spec_path_join(base@, comp@),
{
    let b = chars_of(base);
    let c = chars_of(comp);
    let mut r = String::new();
    if c.len() > 0 && c[0] == '/' {
        push_str(&mut r, comp);
        return r;
    }
    push_str(&mut r, base);
    if !(b.len() == 0 || b[b.len() - 1] == '/') {
        crate::text::push_char(&mut r, '/');
    }
    push_str(&mut r, comp);
    r
}

/// The path separator `/` as a byte.
pub const SEPARATOR: u8 = 47;

/// `base.join(comp)` on Unix, over the paths' bytes: an absolute `comp`
/// replaces `base`; otherwise `comp` is appended, with a `/` between unless
/// `base` is empty or already ends in `/`.
pub open spec fn spec_path_join_bytes(base: Seq<u8>, comp: Seq<u8>) -> Seq<u8> {
    if comp.len() > 0 && comp[0] == SEPARATOR {
        comp
    } else if base.len() == 0 || base[base.len() - 1] == SEPARATOR {
        base + comp
    } else {
        base + seq![SEPARATOR] + comp
    }
}

/// Appends the bytes of `s` to `v`.
fn push_bytes(v: &mut Vec<u8>, s: &[u8])
    ensures
        final(v)@ == old(v)@ + s@,
{
    let mut i: usize = 0;
    while i < s.len()
        invariant
            i <= s@.len(),
            v@ == old(v)@ + s@.take(i as int),
        decreases s@.len() - i,
    {
        v.push(s[i]);
        i = i + 1;
        assert(s@.take(i as int) =~= s@.take(i - 1).push(s@[i - 1]));
    }
    assert(s@.take(i as int) =~= s@);
}

/// `base` joined with `comp`, as path bytes.
pub fn path_join_bytes(base: &[u8], comp: &[u8]) -> (r: Vec<u8>)
    ensures
        r@ == spec_path_join_bytes(base@, comp@),
{
    let mut r: Vec<u8> = Vec::new();
    if comp.len() > 0 && comp[0] == SEPARATOR {
        push_bytes(&mut r, comp);
        assert(r@ =~= comp@);
        return r;
    }
    push_bytes(&mut r, base);
    if !(base.len() == 0 || base[base.len() - 1] == SEPARATOR) {
        r.push(SEPARATOR);
    }
    push_bytes(&mut r, comp);
    assert(r@ =~= spec_path_join_bytes(base@, comp@));
    r
}

/// Joining a relative component goes below `base`: the joined path starts
/// with `base`, is longer, and ends with the component.
pub proof fn lemma_join_bytes_below(base: Seq<u8>, comp: Seq<u8>)
    requires
        comp.len() > 0,
        comp[0] != SEPARATOR,
    ensures
        spec_path_join_bytes(base, comp).len() > base.len(),
        spec_path_join_bytes(base, comp).subrange(0, base.len() as int) == base,
        spec_path_join_bytes(base, comp).subrange(
            spec_path_join_bytes(base, comp).len() - comp.len(),
            spec_path_join_bytes(base, comp).len() as int,
        ) == comp,
{
    let j = spec_path_join_bytes(base, comp);
    assert(j.subrange(0, base.len() as int) =~= base);
    assert(j.subrange(j.len() - comp.len(), j.len() as int) =~= comp);
}

/// A name that starts with an ASCII character other than `/` is a relative
/// component: its bytes start with that character's byte, not with `/`.
pub proof fn lemma_relative_name(name: Seq<char>)
    requires
        name.len() > 0,
        (name[0] as u32) < 128,
        (name[0] as u32) != SEPARATOR,
    ensures
        encode_utf8(name).len() > 0,
        encode_utf8(name)[0] != SEPARATOR,
{
    let x = name[0] as u32;
    assert(encode_utf8(name) == encode_scalar(x) + encode_utf8(name.drop_first()));
    assert(encode_scalar(x) == seq![((x & 0x7F) as u8)]);
    assert((x & 0x7F) as u8 != 47u8) by (bit_vector)
        requires
            x < 128u32,
            x != 47u32,
    ;
}

} // verus!
