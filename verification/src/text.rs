use vstd::prelude::*;
use vstd::utf8::*;
use vstd::string::StringSliceAdditionalSpecFns;

verus! {

broadcast use vstd::utf8::encode_utf8_decode_utf8;

/// Two string slices hold the same characters exactly when their bytes agree.
pub fn str_eq(a: &str, b: &str) -> (r: bool)
    ensures
        r == (a@ == b@),
{
    let ab = a.as_bytes();
    let bb = b.as_bytes();
    proof {
        assert(decode_utf8(encode_utf8(a@)) == a@);
        assert(decode_utf8(encode_utf8(b@)) == b@);
    }
    if ab.len() != bb.len() {
        return false;
    }
    let mut i: usize = 0;
    while i < ab.len()
        invariant
            ab@ == a.spec_bytes(),
            bb@ == b.spec_bytes(),
            ab@.len() == bb@.len(),
            i <= ab@.len(),
            forall|k: int| 0 <= k < i ==> ab@[k] == bb@[k],
        decreases ab@.len() - i,
    {
        if ab[i] != bb[i] {
            return false;
        }
        i += 1;
    }
    assert(ab@ =~= bb@);
    true
}

} // verus!

verus! {

/// The first eight bytes of an identifier when it is longer than that, read
/// back as characters; the identifier itself otherwise.
pub open spec fn short_id_spec(id: Seq<char>) -> Seq<char> {
    let b = encode_utf8(id);
    if b.len() > 8 {
        decode_utf8(b.subrange(0, 8))
    } else {
        id
    }
}

/// The identifier fits in memory and cutting it after eight bytes falls on
/// a character boundary (slicing elsewhere panics).
pub open spec fn short_id_defined(id: Seq<char>) -> bool {
    &&& encode_utf8(id).len() <= usize::MAX
    &&& encode_utf8(id).len() > 8 ==> is_char_boundary(encode_utf8(id), 8)
}

/// Shortens a UUID string to its first eight bytes for readability.
pub fn short_id(id: &str) -> (r: &str)
    requires
        short_id_defined(id@),
    ensures
        r@ == short_id_spec(id@),
{
    if id.len() > 8 {
        let (head, _) = id.split_at(8);
        proof {
            assert(decode_utf8(encode_utf8(head@)) == head@);
        }
        head
    } else {
        id
    }
}

/// The text shown for `s` in a field `max_width` bytes wide: nothing when the
/// field is narrower than four bytes, `s` when it fits, and otherwise its
/// first `max_width - 3` bytes followed by `"..."`.
pub open spec fn truncate_spec(s: Seq<char>, max_width: int) -> Seq<char> {
    let b = encode_utf8(s);
    if max_width < 4 {
        Seq::empty()
    } else if b.len() <= max_width {
        s
    } else {
        decode_utf8(b.subrange(0, max_width - 3)) + "..."@
    }
}

/// The text fits in memory and cutting it to fit `max_width` falls on a
/// character boundary (slicing elsewhere panics).
pub open spec fn truncate_defined(s: Seq<char>, max_width: int) -> bool {
    &&& encode_utf8(s).len() <= usize::MAX
    &&& max_width >= 4 && encode_utf8(s).len() > max_width ==> is_char_boundary(
        encode_utf8(s),
        max_width - 3,
    )
}

/// Truncates a string to fit within a given width, adding "..." if truncated.
pub fn truncate(s: &str, max_width: usize) -> (r: String)
    requires
        truncate_defined(s@, max_width as int),
    ensures
        r@ == truncate_spec(s@, max_width as int),
{
    if max_width < 4 {
        return String::new();
    }
    if s.len() <= max_width {
        s.to_owned()
    } else {
        let (head, _) = s.split_at(max_width - 3);
        proof {
            assert(decode_utf8(encode_utf8(head@)) == head@);
        }
        let mut r = head.to_owned();
        let dots = "...";
        r.append(dots);
        r
    }
}

proof fn lemma_encode_utf8_concat(a: Seq<char>, b: Seq<char>)
    ensures
        encode_utf8(a + b) == encode_utf8(a) + encode_utf8(b),
    decreases a.len(),
{
    if a.len() == 0 {
        assert(a + b =~= b);
        assert(encode_utf8(a) + encode_utf8(b) =~= encode_utf8(b));
    } else {
        assert((a + b).drop_first() =~= a.drop_first() + b);
        assert((a + b)[0] == a[0]);
        lemma_encode_utf8_concat(a.drop_first(), b);
        assert(encode_utf8(a + b) =~= encode_utf8(a) + encode_utf8(b));
    }
}

/// The truncated text never takes more than `max_width` bytes, and text that
/// fits is shown unchanged.
pub proof fn lemma_truncate_fits(s: Seq<char>, max_width: int)
    requires
        truncate_defined(s, max_width),
        max_width >= 0,
    ensures
        encode_utf8(truncate_spec(s, max_width)).len() <= max_width,
        max_width >= 4 && encode_utf8(s).len() <= max_width ==> truncate_spec(s, max_width) == s,
{
    let b = encode_utf8(s);
    if max_width >= 4 && b.len() > max_width {
        let head = b.subrange(0, max_width - 3);
        encode_utf8_valid_utf8(s);
        valid_utf8_split(b, max_width - 3);
        decode_utf8_encode_utf8(head);
        lemma_encode_utf8_concat(decode_utf8(head), "..."@);
        reveal_strlit("...");
        assert(encode_utf8("..."@).len() == 3) by {
            reveal_with_fuel(encode_utf8, 4);
        }
    } else if max_width < 4 {
        assert(encode_utf8(Seq::<char>::empty()) =~= Seq::<u8>::empty());
    }
}

} // verus!
