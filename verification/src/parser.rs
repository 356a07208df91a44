//! Dispatcher and result union.
//!
//! The dispatcher frames a raw line (an optional leading `$`, an optional
//! `*`-introduced checksum suffix — verifying the checksum is the
//! transport's job), reads the leading identifier field, and routes the
//! payload to the decoder registered for the identifier's sentence type.
//! The registry is the fixed dispatch below: it is built into the code,
//! read-only, and shared by every call, so each decode is a pure function
//! of its input line.

use vstd::prelude::*;

use crate::errors::{res_view, ErrorModel, ParseError};
use crate::gnss::mda;
use crate::scan::{first_at, lemma_first_at_is};
use crate::split::{lemma_split_len, spec_split, split_fields};

verus! {

/// One successfully decoded sentence: a closed union with one variant per
/// supported sentence type, so callers can pattern-match without knowing
/// which type arrived.
#[derive(Clone, Debug, PartialEq)]
pub enum ParsedMessage {
    /// MDA - Meteorological Composite.
    Mda(mda::MdaData),
}

/// The sentence line with its framing removed: a single leading `$` is
/// dropped, and everything from the first `*` on (the checksum suffix) is
/// cut off.
pub open spec fn spec_payload(s: Seq<char>) -> Seq<char> {
    let t = if s.len() > 0 && s[0] == '$' {
        s.drop_first()
    } else {
        s
    };
    t.take(first_at(t, '*'))
}

/// The sentence-type identifier: a five-character leading field is a
/// two-character talker prefix followed by the three-character type, so
/// the talker is dropped; any other length is taken as the type itself.
pub open spec fn spec_type_id(identifier: Seq<char>) -> Seq<char> {
    if identifier.len() == 5 {
        identifier.skip(2)
    } else {
        identifier
    }
}

/// The sentence type served by the MDA decoder.
pub open spec fn mda_id() -> Seq<char> {
    seq!['M', 'D', 'A']
}

/// What parsing a raw line returns: the decode of its payload by the
/// decoder registered for its sentence type, or `Unsupported` naming the
/// identifier field when no decoder matches it.
pub open spec fn spec_parse_sentence(s: Seq<char>) -> Result<ParsedMessage, ErrorModel> {
    let payload = spec_payload(s);
    let identifier = spec_split(payload, ',')[0];
    if spec_type_id(identifier) == mda_id() {
        mda::spec_handle(payload)
    } else {
        Err(ErrorModel::Unsupported { identifier })
    }
}

/// A sentence whose type identifier has no registered decoder fails with
/// `Unsupported` naming the identifier field as it stood in the line; it
/// never reaches another type's decoder, because dispatch compares the
/// whole sentence type for equality.
pub proof fn lemma_unsupported_sentence_type(s: Seq<char>)
    requires
        spec_type_id(spec_split(spec_payload(s), ',')[0]) != mda_id(),
    ensures
        spec_parse_sentence(s) == Err::<ParsedMessage, ErrorModel>(
            ErrorModel::Unsupported { identifier: spec_split(spec_payload(s), ',')[0] },
        ),
{
}

/// Decoding is stateless: the outcome is a function of the sentence text
/// alone, so two decodes of the same text yield the same result.
pub proof fn lemma_parse_deterministic(s1: Seq<char>, s2: Seq<char>)
    requires
        s1 == s2,
    ensures
        spec_parse_sentence(s1) == spec_parse_sentence(s2),
{
}

/// The sentence decoder.  It holds no state: the decoder registry is fixed
/// at build time and every decode is independent of every other.
pub struct NmeaParser {}

impl NmeaParser {
    /// Creates a parser with the built-in decoder registry.
    pub fn new() -> (p: NmeaParser) {
        NmeaParser {  }
    }

    /// Decodes one raw sentence line: strips the framing, looks the
    /// sentence-type identifier up among the registered decoders, and
    /// returns the matching decoder's record or a classified failure.
    pub fn parse_sentence(&self, sentence: &str) -> (r: Result<ParsedMessage, ParseError>)
        ensures
            res_view(r) == spec_parse_sentence(sentence@),
    {
        let n = sentence.unicode_len();
        let start: usize = if n > 0 && sentence.get_char(0) == '$' {
            1
        } else {
            0
        };
        let ghost t = if start == 1 {
            sentence@.drop_first()
        } else {
            sentence@
        };
        proof {
            if start == 1 {
                assert(t =~= sentence@.skip(1));
            } else {
                assert(t =~= sentence@.skip(0));
            }
        }
        let mut end: usize = start;
        while end < n && sentence.get_char(end) != '*'
            invariant
                n == sentence@.len(),
                start <= end <= n,
                forall|j: int| start <= j < end ==> sentence@[j] != '*',
            decreases n - end,
        {
            end = end + 1;
        }
        proof {
            assert forall|j: int| 0 <= j < end - start implies t[j] != '*' by {
                assert(sentence@[start + j] != '*');
            }
            lemma_first_at_is(t, '*', end - start);
            assert(sentence@.subrange(start as int, end as int) =~= t.take(end - start));
        }
        let payload = sentence.substring_char(start, end);
        let fields = split_fields(payload, ',');
        proof {
            lemma_split_len(payload@, ',');
            assert(fields.deep_view()[0] == fields[0]@);
        }
        let identifier = &fields[0];
        let ghost ident = identifier@;
        let il = identifier.as_str().unicode_len();
        let is_mda: bool = if il == 5 {
            identifier.as_str().get_char(2) == 'M' && identifier.as_str().get_char(3) == 'D'
                && identifier.as_str().get_char(4) == 'A'
        } else if il == 3 {
            identifier.as_str().get_char(0) == 'M' && identifier.as_str().get_char(1) == 'D'
                && identifier.as_str().get_char(2) == 'A'
        } else {
            false
        };
        proof {
            if is_mda {
                assert(spec_type_id(ident) =~= mda_id());
            } else {
                if spec_type_id(ident) == mda_id() {
                    assert(spec_type_id(ident).len() == 3);
                    assert(spec_type_id(ident)[0] == 'M');
                    assert(spec_type_id(ident)[1] == 'D');
                    assert(spec_type_id(ident)[2] == 'A');
                    assert(il == 5 || il == 3);
                    assert(false);
                }
            }
        }
        if is_mda {
            mda::handle(payload)
        } else {
            Err(ParseError::UnsupportedSentenceType { identifier: identifier.clone() })
        }
    }
}

} // verus!
