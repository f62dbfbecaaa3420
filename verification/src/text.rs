use vstd::prelude::*;
use vstd::string::StringSliceAdditionalSpecFns;
use vstd::utf8::{encode_utf8_valid_utf8, is_char_boundary, is_char_boundary_iff_not_is_continuation_byte,
    pop_first_scalar, valid_utf8};

verus! {

/// Whether every byte of `s[from..to]` is ASCII.
pub open spec fn all_ascii(s: Seq<u8>, from: int, to: int) -> bool {
    forall|i: int| from <= i < to ==> #[trigger] s[i] < 0x80
}

/// In UTF-8 every ASCII byte is a character of its own, so a text that begins
/// with `n` ASCII bytes can be cut after them.
proof fn lemma_ascii_run_ends_on_boundary(bytes: Seq<u8>, n: int)
    requires
        valid_utf8(bytes),
        0 <= n <= bytes.len(),
        all_ascii(bytes, 0, n),
    ensures
        is_char_boundary(bytes, n),
    decreases n,
{
    if n > 0 {
        let rest = pop_first_scalar(bytes);
        assert(bytes[0] < 0x80);
        assert(rest == bytes.subrange(1, bytes.len() as int));
        assert forall|i: int| 0 <= i < n - 1 implies #[trigger] rest[i] < 0x80 by {
            assert(rest[i] == bytes[i + 1]);
        }
        lemma_ascii_run_ends_on_boundary(rest, n - 1);
    }
}

/// Cuts the bytes `from..to` out of `line`, where they are all ASCII. `None`
/// tells that one of them is not, so that the columns do not hold a field of
/// single-byte characters.
pub(crate) fn ascii_field<'a>(line: &'a str, from: usize, to: usize) -> (r: Option<&'a str>)
    requires
        from < to <= line.spec_bytes().len(),
    ensures
        r is Some <==> all_ascii(line.spec_bytes(), from as int, to as int),
        r matches Some(field) ==> field.spec_bytes() == line.spec_bytes().subrange(
            from as int,
            to as int,
        ),
{
    let bytes = line.as_bytes();
    let mut i: usize = from;
    while i < to
        invariant
            from <= i <= to <= bytes@.len(),
            bytes@ == line.spec_bytes(),
            all_ascii(bytes@, from as int, i as int),
        decreases to - i,
    {
        if bytes[i] >= 0x80 {
            assert(!(bytes@[i as int] < 0x80));
            return None;
        }
        i += 1;
    }
    proof {
        encode_utf8_valid_utf8(line@);
        is_char_boundary_iff_not_is_continuation_byte(line.spec_bytes(), from as int);
    }
    let (_, tail) = line.split_at(from);
    proof {
        encode_utf8_valid_utf8(tail@);
        assert forall|k: int| 0 <= k < to - from implies #[trigger] tail.spec_bytes()[k] < 0x80 by {
            assert(tail.spec_bytes()[k] == bytes@[from + k]);
        }
        lemma_ascii_run_ends_on_boundary(tail.spec_bytes(), to - from);
    }
    let (field, _) = tail.split_at(to - from);
    assert(field.spec_bytes() =~= line.spec_bytes().subrange(from as int, to as int));
    Some(field)
}

} // verus!
