//! The codepoint parser: extracts the target character code from a glyph
//! file name. A name carries a codepoint when it ends in at least one
//! decimal digit followed by ".png"; the digit run, read as a decimal
//! number, is the codepoint.

use crate::errors::{FontCreationError, FontErrorKind};
use vstd::prelude::*;
use vstd::string::{StrSliceExecFns, StringExecFns};

verus! {

/// A decimal digit.
pub open spec fn is_digit(c: char) -> bool {
    48 <= c as u32 && c as u32 <= 57
}

/// How many decimal digits end the sequence.
pub open spec fn trailing_digit_count(s: Seq<char>) -> nat
    decreases s.len(),
{
    if s.len() == 0 || !is_digit(s.last()) {
        0
    } else {
        1 + trailing_digit_count(s.drop_last())
    }
}

/// The number a run of decimal digits denotes, most significant first.
pub open spec fn digits_value(s: Seq<char>) -> int
    recommends
        forall|j: int| 0 <= j < s.len() ==> is_digit(s[j]),
    decreases s.len(),
{
    if s.len() == 0 {
        0
    } else {
        10 * digits_value(s.drop_last()) + (s.last() as u32 - 48)
    }
}

/// Whether the file name ends in ".png" preceded by at least one decimal
/// digit.
pub open spec fn has_codepoint_suffix(s: Seq<char>) -> bool {
    &&& s.len() >= 4
    &&& s.subrange(s.len() - 4, s.len() as int) == seq!['.', 'p', 'n', 'g']
    &&& trailing_digit_count(s.subrange(0, s.len() - 4)) > 0
}

/// The maximal digit run just before the ".png" suffix.
pub open spec fn codepoint_digits(s: Seq<char>) -> Seq<char> {
    let stem = s.subrange(0, s.len() - 4);
    stem.subrange(stem.len() - trailing_digit_count(stem), stem.len() as int)
}

/// The codepoint the file name denotes.
pub open spec fn codepoint_value(s: Seq<char>) -> int {
    digits_value(codepoint_digits(s))
}

proof fn lemma_digits_value_nonneg(s: Seq<char>)
    requires
        forall|j: int| 0 <= j < s.len() ==> is_digit(s[j]),
    ensures
        digits_value(s) >= 0,
    decreases s.len(),
{
    if s.len() > 0 {
        lemma_digits_value_nonneg(s.drop_last());
    }
}

/// A digit run denotes at least as much as any of its prefixes.
proof fn lemma_digits_value_prefix_le(s: Seq<char>, m: int)
    requires
        0 <= m <= s.len(),
        forall|j: int| 0 <= j < s.len() ==> is_digit(s[j]),
    ensures
        digits_value(s.subrange(0, m)) <= digits_value(s),
    decreases s.len(),
{
    if m == s.len() {
        assert(s.subrange(0, m) =~= s);
    } else {
        assert(s.drop_last().subrange(0, m) =~= s.subrange(0, m));
        lemma_digits_value_prefix_le(s.drop_last(), m);
        lemma_digits_value_nonneg(s.drop_last());
    }
}

/// Parses the codepoint from a glyph file name: the decimal digit run that
/// ends the name just before its ".png" extension. A name without such a
/// run, or a run denoting more than a single-byte codepoint, is a parse
/// error.
pub fn parse_codepoint_from_filename(filename: &str) -> (r: Result<u8, FontCreationError>)
    ensures
        r is Ok <==> (has_codepoint_suffix(filename@) && codepoint_value(filename@) <= 255),
        r matches Ok(c) ==> c == codepoint_value(filename@),
        r matches Err(e) ==> e.kind == FontErrorKind::CodepointParse,
{
    let len = filename.unicode_len();
    if len < 4 {
        return Err(FontCreationError::with_kind(
            FontErrorKind::CodepointParse,
            String::from_str("Unable to parse codepoint from filename"),
        ));
    }
    let suffix_ok = filename.get_char(len - 4) == '.' && filename.get_char(len - 3) == 'p'
        && filename.get_char(len - 2) == 'n' && filename.get_char(len - 1) == 'g';
    if !suffix_ok {
        proof {
            let tail = filename@.subrange(filename@.len() - 4, filename@.len() as int);
            assert(tail[0] == filename@[filename@.len() - 4]);
            assert(tail[1] == filename@[filename@.len() - 3]);
            assert(tail[2] == filename@[filename@.len() - 2]);
            assert(tail[3] == filename@[filename@.len() - 1]);
        }
        return Err(FontCreationError::with_kind(
            FontErrorKind::CodepointParse,
            String::from_str("Unable to parse codepoint from filename"),
        ));
    }
    proof {
        assert(filename@.subrange(filename@.len() - 4, filename@.len() as int) =~= seq![
            '.',
            'p',
            'n',
            'g',
        ]);
    }
    let stem_len = len - 4;
    let mut i: usize = stem_len;
    loop
        invariant
            i <= stem_len,
            stem_len + 4 == filename@.len(),
            forall|j: int| i <= j < stem_len ==> is_digit(filename@[j]),
            trailing_digit_count(filename@.subrange(0, stem_len as int)) == (stem_len - i)
                + trailing_digit_count(filename@.subrange(0, i as int)),
        ensures
            i <= stem_len,
            stem_len + 4 == filename@.len(),
            forall|j: int| i <= j < stem_len ==> is_digit(filename@[j]),
            trailing_digit_count(filename@.subrange(0, stem_len as int)) == stem_len - i,
        decreases i,
    {
        if i == 0 {
            break;
        }
        let c = filename.get_char(i - 1);
        let u = c as u32;
        if !(48 <= u && u <= 57) {
            proof {
                let sub_i = filename@.subrange(0, i as int);
                assert(sub_i.last() == filename@[i - 1]);
            }
            break;
        }
        proof {
            let sub_i = filename@.subrange(0, i as int);
            assert(sub_i.last() == filename@[i - 1]);
            assert(sub_i.drop_last() =~= filename@.subrange(0, (i - 1) as int));
        }
        i = i - 1;
    }
    if i == stem_len {
        return Err(FontCreationError::with_kind(
            FontErrorKind::CodepointParse,
            String::from_str("Unable to parse codepoint from filename"),
        ));
    }
    proof {
        let stem = filename@.subrange(0, stem_len as int);
        assert(codepoint_digits(filename@) =~= filename@.subrange(i as int, stem_len as int));
    }
    let ghost run = filename@.subrange(i as int, stem_len as int);
    let mut val: u32 = 0;
    let mut j: usize = i;
    while j < stem_len
        invariant
            i <= j <= stem_len,
            stem_len + 4 == filename@.len(),
            forall|k: int| i <= k < stem_len ==> is_digit(filename@[k]),
            run == filename@.subrange(i as int, stem_len as int),
            val <= 255,
            val == digits_value(filename@.subrange(i as int, j as int)),
            codepoint_digits(filename@) == run,
            has_codepoint_suffix(filename@),
        decreases stem_len - j,
    {
        let c = filename.get_char(j);
        let u = c as u32;
        let d = u - 48;
        proof {
            let sub1 = filename@.subrange(i as int, (j + 1) as int);
            assert(sub1.last() == filename@[j as int]);
            assert(sub1.drop_last() =~= filename@.subrange(i as int, j as int));
        }
        if 10 * val + d > 255 {
            proof {
                assert forall|t: int| 0 <= t < run.len() implies is_digit(run[t]) by {
                    assert(run[t] == filename@[i + t]);
                }
                lemma_digits_value_prefix_le(run, j + 1 - i as int);
                assert(run.subrange(0, j + 1 - i as int) =~= filename@.subrange(
                    i as int,
                    (j + 1) as int,
                ));
            }
            return Err(FontCreationError::with_kind(
                FontErrorKind::CodepointParse,
                String::from_str("Codepoint in filename is out of range"),
            ));
        }
        val = 10 * val + d;
        j += 1;
    }
    proof {
        assert(filename@.subrange(i as int, stem_len as int) == run);
    }
    Ok(val as u8)
}

} // verus!
