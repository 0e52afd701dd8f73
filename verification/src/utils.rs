//! Shortening of long texts (upstream bodies, model replies) for log lines.
use vstd::prelude::*;
use crate::text::{
    byte_len, char_utf8_width, chars_of, decimal_spec, lemma_byte_len_take_step,
    lemma_encode_utf8_concat, push_char, push_decimal, utf8_width,
};

verus! {

/// Byte budget of the kept part of a truncated text.
pub const TRUNCATE_MAX_BYTES: usize = 512;

/// Number of leading characters of `s` whose UTF-8 encodings together fit in
/// `budget` bytes.
pub open spec fn chars_within(s: Seq<char>, budget: int) -> nat
    decreases s.len(),
{
    if s.len() == 0 || utf8_width(s[0]) > budget {
        0
    } else {
        1 + chars_within(s.drop_first(), budget - utf8_width(s[0]))
    }
}

/// What `truncate` makes of a text: texts of at most 512 bytes stay as they
/// are; longer ones keep the longest character prefix of at most 512 bytes,
/// followed by `… (<byte length> bytes)`.
pub open spec fn truncate_spec(s: Seq<char>) -> Seq<char> {
    if byte_len(s) > TRUNCATE_MAX_BYTES {
        s.take(chars_within(s, TRUNCATE_MAX_BYTES as int) as int) + "\u{2026} ("@ + decimal_spec(
            byte_len(s),
        ) + " bytes)"@
    } else {
        s
    }
}

/// Shortens `s` to at most 512 bytes of its text, cut at a character
/// boundary, and notes the original byte length.
pub fn truncate(s: &str) -> (res: String)
    ensures
        res@ == truncate_spec(s@),
{
    let total: usize = s.as_bytes().len();
    if total > TRUNCATE_MAX_BYTES {
        let cs = chars_of(s);
        let mut out = String::new();
        let mut used: usize = 0;
        let mut i: usize = 0;
        proof {
            assert(s@.skip(0) =~= s@);
            assert(s@.take(0) =~= Seq::<char>::empty());
        }
        loop
            invariant
                cs@ == s@,
                i <= cs@.len(),
                used <= TRUNCATE_MAX_BYTES,
                out@ == s@.take(i as int),
                chars_within(s@, TRUNCATE_MAX_BYTES as int) == i + chars_within(
                    s@.skip(i as int),
                    TRUNCATE_MAX_BYTES - used,
                ),
            ensures
                out@ == s@.take(chars_within(s@, TRUNCATE_MAX_BYTES as int) as int),
            decreases cs@.len() - i,
        {
            if i >= cs.len() {
                proof {
                    assert(s@.skip(i as int).len() == 0);
                }
                break;
            }
            let c = cs[i];
            let w: usize = char_utf8_width(c);
            if w > TRUNCATE_MAX_BYTES - used {
                proof {
                    assert(s@.skip(i as int)[0] == c);
                }
                break;
            }
            proof {
                let rest = s@.skip(i as int);
                assert(rest[0] == c);
                assert(rest.drop_first() =~= s@.skip(i + 1));
                assert(s@.take(i + 1) =~= s@.take(i as int).push(c));
            }
            push_char(&mut out, c);
            used = used + w;
            i = i + 1;
        }
        out.append("\u{2026} (");
        push_decimal(&mut out, total);
        out.append(" bytes)");
        proof {
            assert(total as nat == byte_len(s@));
            assert(out@ =~= truncate_spec(s@));
        }
        out
    } else {
        s.to_owned()
    }
}

/// Every prefix counted by `chars_within` fits in the budget, and the next
/// character, if any, would not.
pub proof fn lemma_chars_within_fits(s: Seq<char>, budget: int)
    requires
        budget >= 0,
    ensures
        chars_within(s, budget) <= s.len(),
        byte_len(s.take(chars_within(s, budget) as int)) <= budget,
        chars_within(s, budget) < s.len() ==> byte_len(
            s.take(chars_within(s, budget) + 1int),
        ) > budget,
    decreases s.len(),
{
    let k: nat = chars_within(s, budget);
    if s.len() == 0 {
        assert(s.take(0) =~= Seq::<char>::empty());
    } else if utf8_width(s[0]) > budget {
        assert(s.take(0) =~= Seq::<char>::empty());
        lemma_byte_len_take_step(s, 0);
    } else {
        let w: nat = utf8_width(s[0]);
        let rest = s.drop_first();
        lemma_chars_within_fits(rest, budget - w);
        let k1: nat = chars_within(rest, budget - w);
        assert(s.take(k as int) =~= seq![s[0]] + rest.take(k1 as int));
        lemma_encode_utf8_concat(seq![s[0]], rest.take(k1 as int));
        lemma_byte_len_take_step(seq![s[0]], 0);
        assert(seq![s[0]].take(0) =~= Seq::<char>::empty());
        assert(seq![s[0]].take(1) =~= seq![s[0]]);
        if k < s.len() {
            assert(s.take(k + 1int) =~= seq![s[0]] + rest.take(k1 + 1int));
            lemma_encode_utf8_concat(seq![s[0]], rest.take(k1 + 1int));
        }
    }
}

/// A truncated text keeps the longest character prefix of the input that fits
/// in 512 bytes, and a text that already fits is returned unchanged.
pub proof fn law_truncate_keeps_longest_fitting_prefix(s: Seq<char>)
    ensures
        byte_len(s) <= TRUNCATE_MAX_BYTES ==> truncate_spec(s) == s,
        byte_len(s) > TRUNCATE_MAX_BYTES ==> {
            let k: nat = chars_within(s, TRUNCATE_MAX_BYTES as int);
            &&& k < s.len()
            &&& truncate_spec(s).take(k as int) == s.take(k as int)
            &&& byte_len(s.take(k as int)) <= TRUNCATE_MAX_BYTES
            &&& byte_len(s.take(k + 1int)) > TRUNCATE_MAX_BYTES
        },
{
    lemma_chars_within_fits(s, TRUNCATE_MAX_BYTES as int);
    if byte_len(s) > TRUNCATE_MAX_BYTES {
        let k: nat = chars_within(s, TRUNCATE_MAX_BYTES as int);
        if k == s.len() {
            assert(s.take(k as int) =~= s);
        }
        assert(truncate_spec(s).take(k as int) =~= s.take(k as int));
    }
}

} // verus!
