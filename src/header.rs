//! Locating the i5 barcode in a header line and rewriting it in place.
use vstd::prelude::*;
use crate::complement::{reverse_complement, reverse_complement_in_place};
use crate::search::{
    contains_byte, find_first, find_last, first_index, is_first_index, is_last_index, last_index,
    lemma_first_index_exists, lemma_first_index_unique, lemma_last_index_exists,
    lemma_last_index_unique,
};
use crate::complement::{complement, lemma_reverse_complement_involutive};

verus! {

/// The byte a header line starts with: `@`.
pub const MARKER: u8 = 64;

/// The line terminator: `\n`.
pub const NEWLINE: u8 = 10;

/// The delimiter before the index field: `:`.
pub const FIELD_DELIMITER: u8 = 58;

/// The delimiter between the i7 and the i5 barcode: `+`.
pub const SUBFIELD_DELIMITER: u8 = 43;

/// Why a header line was rejected.
#[derive(Clone, Copy, Debug, PartialEq, Eq, Structural)]
pub enum HeaderError {
    /// The line is empty or does not start with `@`.
    MissingMarker,
    /// The line does not end with `\n`.
    MissingTerminator,
    /// The line holds no `:`.
    MissingFieldDelimiter,
    /// No `+` follows the last `:`.
    MissingSubfieldDelimiter,
}

impl HeaderError {
    /// The text that `message` returns.
    pub open spec fn message_text(self) -> Seq<char> {
        match self {
            HeaderError::MissingMarker => "invalid FASTQ header: does not start with '@'"@,
            HeaderError::MissingTerminator => "invalid FASTQ header: missing trailing newline"@,
            HeaderError::MissingFieldDelimiter =>
                "invalid FASTQ header: missing ':' before index field"@,
            HeaderError::MissingSubfieldDelimiter =>
                "invalid FASTQ header: missing '+' in index field"@,
        }
    }

    /// The text shown to a user for this error.
    pub fn message(&self) -> (r: &'static str)
        ensures
            r@ == self.message_text(),
    {
        match self {
            HeaderError::MissingMarker => "invalid FASTQ header: does not start with '@'",
            HeaderError::MissingTerminator => "invalid FASTQ header: missing trailing newline",
            HeaderError::MissingFieldDelimiter =>
                "invalid FASTQ header: missing ':' before index field",
            HeaderError::MissingSubfieldDelimiter =>
                "invalid FASTQ header: missing '+' in index field",
        }
    }
}

/// Position of the last `:` of the line.
pub open spec fn colon_index(h: Seq<u8>) -> int {
    last_index(h, FIELD_DELIMITER)
}

/// What follows the last `:`, up to the end of the line.
pub open spec fn index_field(h: Seq<u8>) -> Seq<u8> {
    h.subrange(colon_index(h) + 1, h.len() as int)
}

/// Position of the first `+` after the last `:`.
pub open spec fn plus_index(h: Seq<u8>) -> int {
    colon_index(h) + 1 + first_index(index_field(h), SUBFIELD_DELIMITER)
}

/// Start of the barcode field: just after that `+`.
pub open spec fn barcode_start(h: Seq<u8>) -> int {
    plus_index(h) + 1
}

/// End of the barcode field (exclusive): the final `\n`.
pub open spec fn barcode_end(h: Seq<u8>) -> int {
    h.len() - 1
}

/// The i5 barcode of a valid header line.
pub open spec fn barcode(h: Seq<u8>) -> Seq<u8> {
    h.subrange(barcode_start(h), barcode_end(h))
}

/// Whether the line is a valid header, and if not, the first rule it breaks.
pub open spec fn header_check(h: Seq<u8>) -> Result<(), HeaderError> {
    if h.len() == 0 || h[0] != MARKER {
        Err(HeaderError::MissingMarker)
    } else if h.last() != NEWLINE {
        Err(HeaderError::MissingTerminator)
    } else if !contains_byte(h, FIELD_DELIMITER) {
        Err(HeaderError::MissingFieldDelimiter)
    } else if !contains_byte(index_field(h), SUBFIELD_DELIMITER) {
        Err(HeaderError::MissingSubfieldDelimiter)
    } else {
        Ok(())
    }
}

/// The header line with its barcode replaced by its reverse complement.
pub open spec fn rewritten_header(h: Seq<u8>) -> Seq<u8> {
    h.subrange(0, barcode_start(h)) + reverse_complement(barcode(h)) + h.subrange(
        barcode_end(h),
        h.len() as int,
    )
}

/// In a valid header the field is found from the last `:` of the line and
/// the first `+` after it, whatever `:` stand before; the barcode lies
/// between that `+` and the final `\n`.
pub proof fn lemma_delimiters_located(h: Seq<u8>)
    requires
        header_check(h) is Ok,
    ensures
        is_last_index(h, FIELD_DELIMITER, colon_index(h)),
        is_first_index(index_field(h), SUBFIELD_DELIMITER, plus_index(h) - colon_index(h) - 1),
        h[plus_index(h)] == SUBFIELD_DELIMITER,
        forall|k: int| colon_index(h) < k < plus_index(h) ==> h[k] != SUBFIELD_DELIMITER,
        0 < colon_index(h) < plus_index(h) < barcode_start(h) <= barcode_end(h) < h.len(),
{
    lemma_last_index_exists(h, FIELD_DELIMITER);
    lemma_first_index_exists(index_field(h), SUBFIELD_DELIMITER);
    let c = colon_index(h);
    let f = index_field(h);
    let p = plus_index(h);
    assert(f[p - c - 1] == h[p]);
    assert forall|k: int| c < k < p implies h[k] != SUBFIELD_DELIMITER by {
        assert(f[k - c - 1] == h[k]);
    }
}

/// Rewriting a valid header keeps its length, its delimiters and every byte
/// up to and including the `+` and the final `\n`; the new barcode is the
/// reverse complement of the old one, position by position mirrored.
pub proof fn lemma_rewrite_layout(h: Seq<u8>)
    requires
        header_check(h) is Ok,
    ensures
        rewritten_header(h).len() == h.len(),
        header_check(rewritten_header(h)) is Ok,
        colon_index(rewritten_header(h)) == colon_index(h),
        plus_index(rewritten_header(h)) == plus_index(h),
        barcode(rewritten_header(h)).len() == barcode(h).len(),
        barcode(rewritten_header(h)) == reverse_complement(barcode(h)),
        forall|k: int|
            0 <= k < barcode(h).len() ==> barcode(rewritten_header(h))[k] == complement(
                barcode(h)[barcode(h).len() - 1 - k],
            ),
        forall|k: int| 0 <= k < barcode_start(h) ==> rewritten_header(h)[k] == h[k],
        rewritten_header(h).last() == h.last(),
{
    lemma_delimiters_located(h);
    let r = rewritten_header(h);
    let c = colon_index(h);
    let p = plus_index(h);
    let s = barcode_start(h);
    let e = barcode_end(h);
    let bc = barcode(h);
    assert(r.len() == h.len());
    assert forall|k: int| 0 <= k < s implies r[k] == h[k] by {}
    assert(r[e] == h[e]);
    assert forall|k: int| s <= k < e implies r[k] == complement(h[s + e - 1 - k]) by {
        assert(bc[e - 1 - k] == h[s + e - 1 - k]);
    }
    // the last `:` stays where it was
    assert forall|k: int| c < k < r.len() implies r[k] != FIELD_DELIMITER by {
        if s <= k < e {
            assert(h[s + e - 1 - k] != FIELD_DELIMITER);
        }
    }
    assert(is_last_index(r, FIELD_DELIMITER, c));
    lemma_last_index_unique(r, FIELD_DELIMITER, c);
    // so does the first `+` after it
    let fr = index_field(r);
    assert forall|k: int| 0 <= k < p - c - 1 implies fr[k] != SUBFIELD_DELIMITER by {
        assert(fr[k] == r[c + 1 + k]);
    }
    assert(fr[p - c - 1] == r[p]);
    assert(is_first_index(fr, SUBFIELD_DELIMITER, p - c - 1));
    lemma_first_index_unique(fr, SUBFIELD_DELIMITER, p - c - 1);
    assert(contains_byte(r, FIELD_DELIMITER));
    assert(contains_byte(fr, SUBFIELD_DELIMITER));
    assert(barcode(r) =~= reverse_complement(bc));
}

/// Rewriting a valid header twice gives back the header, byte for byte.
pub proof fn lemma_rewrite_involutive(h: Seq<u8>)
    requires
        header_check(h) is Ok,
    ensures
        header_check(rewritten_header(h)) is Ok,
        rewritten_header(rewritten_header(h)) == h,
{
    lemma_rewrite_layout(h);
    lemma_delimiters_located(h);
    let r = rewritten_header(h);
    lemma_reverse_complement_involutive(barcode(h));
    assert(barcode(h).len() == barcode_end(h) - barcode_start(h));
    assert(r.subrange(0, barcode_start(h)) =~= h.subrange(0, barcode_start(h)));
    assert(r.subrange(barcode_end(h), r.len() as int) =~= h.subrange(barcode_end(h), h.len() as int));
    assert(rewritten_header(r) =~= h);
}

/// A valid header with an empty barcode is left as it is.
pub proof fn lemma_empty_barcode_unchanged(h: Seq<u8>)
    requires
        header_check(h) is Ok,
        barcode(h).len() == 0,
    ensures
        rewritten_header(h) == h,
        barcode(rewritten_header(h)).len() == 0,
{
    lemma_delimiters_located(h);
    lemma_rewrite_layout(h);
    assert(rewritten_header(h) =~= h);
}

/// Reverse-complements the i5 part of a header line in place. The line must
/// start with `@` and end with `:<i7>+<i5>\n`; on any error it is left as it
/// was.
pub fn rewrite_header_i5(header: &mut [u8]) -> (r: Result<(), HeaderError>)
    ensures
        r == header_check(old(header)@),
        r is Ok ==> final(header)@ == rewritten_header(old(header)@),
        r is Err ==> final(header)@ == old(header)@,
{
    let ghost h = header@;
    let n: usize = header.len();
    if n == 0 || header[0] != MARKER {
        return Err(HeaderError::MissingMarker);
    }
    if header[n - 1] != NEWLINE {
        return Err(HeaderError::MissingTerminator);
    }
    let colon: usize = match find_last(FIELD_DELIMITER, header) {
        Some(c) => c,
        None => {
            return Err(HeaderError::MissingFieldDelimiter);
        },
    };
    proof {
        lemma_last_index_unique(h, FIELD_DELIMITER, colon as int);
    }
    let after_colon: usize = colon + 1;
    let rel: usize = match find_first(SUBFIELD_DELIMITER, &header[after_colon..n]) {
        Some(p) => p,
        None => {
            assert(header@.subrange(after_colon as int, n as int) == index_field(h));
            return Err(HeaderError::MissingSubfieldDelimiter);
        },
    };
    assert(header@.subrange(after_colon as int, n as int) == index_field(h));
    proof {
        lemma_first_index_unique(index_field(h), SUBFIELD_DELIMITER, rel as int);
        assert(index_field(h)[rel as int] == h[after_colon + rel]);
    }
    let start: usize = after_colon + rel + 1;
    let stop: usize = n - 1;
    let (_prefix, rest) = header.split_at_mut(start);
    let (i5, _terminator) = rest.split_at_mut(stop - start);
    reverse_complement_in_place(i5);
    assert(header@ =~= rewritten_header(h));
    Ok(())
}

} // verus!
