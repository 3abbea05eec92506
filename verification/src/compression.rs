//! The enumerated file compression types accepted by `COMPRESSION TYPE`, and
//! the mapping from a compression tag to its enumerated value.
use vstd::prelude::*;
use crate::errors::ParseError;
use crate::strutil::eq_icase;
use crate::strutil::eq_ignore_case;

verus! {

#[derive(Clone, Copy, Debug, PartialEq, Eq, Structural)]
pub enum CompressionTypeVariant {
    GZIP,
    BZIP2,
    XZ,
    UNCOMPRESSED,
}

/// The enumerated compression type named by a tag, compared without regard
/// to ASCII letter case; `None` for an unsupported tag.
pub open spec fn spec_compression_of(tag: Seq<char>) -> Option<CompressionTypeVariant> {
    if eq_icase(tag, "GZIP"@) {
        Some(CompressionTypeVariant::GZIP)
    } else if eq_icase(tag, "BZIP2"@) {
        Some(CompressionTypeVariant::BZIP2)
    } else if eq_icase(tag, "XZ"@) {
        Some(CompressionTypeVariant::XZ)
    } else if eq_icase(tag, "UNCOMPRESSED"@) {
        Some(CompressionTypeVariant::UNCOMPRESSED)
    } else {
        None
    }
}

/// The message reported for an unsupported compression tag: the tag is
/// shown in ASCII uppercase, as the comparison reads it.
pub open spec fn spec_unsupported_compression_message(tag: Seq<char>) -> Seq<char> {
    "Unsupported file compression type "@ + crate::strutil::upper_seq(tag)
}

/// Map a compression tag to its enumerated value. An unsupported tag is
/// rejected with a message naming the tag.
pub fn parse_compression_tag(tag: &str) -> (r: Result<CompressionTypeVariant, ParseError>)
    ensures
        match r {
            Ok(c) => spec_compression_of(tag@) == Some(c),
            Err(e) => spec_compression_of(tag@) is None && (e matches ParseError::ParseError(m)
                && m@ == spec_unsupported_compression_message(tag@)),
        },
{
    if eq_ignore_case(tag, "GZIP") {
        Ok(CompressionTypeVariant::GZIP)
    } else if eq_ignore_case(tag, "BZIP2") {
        Ok(CompressionTypeVariant::BZIP2)
    } else if eq_ignore_case(tag, "XZ") {
        Ok(CompressionTypeVariant::XZ)
    } else if eq_ignore_case(tag, "UNCOMPRESSED") {
        Ok(CompressionTypeVariant::UNCOMPRESSED)
    } else {
        let mut msg = String::from_str("Unsupported file compression type ");
        let shown = crate::strutil::to_upper_ascii(tag);
        msg.append(shown.as_str());
        Err(ParseError::ParseError(msg))
    }
}

impl CompressionTypeVariant {
    /// The canonical tag of the compression type.
    pub fn as_tag(&self) -> (r: String)
        ensures
            spec_compression_of(r@) == Some(*self),
            match self {
                CompressionTypeVariant::GZIP => r@ == "GZIP"@,
                CompressionTypeVariant::BZIP2 => r@ == "BZIP2"@,
                CompressionTypeVariant::XZ => r@ == "XZ"@,
                CompressionTypeVariant::UNCOMPRESSED => r@ == "UNCOMPRESSED"@,
            },
    {
        proof {
            reveal_strlit("GZIP");
            reveal_strlit("BZIP2");
            reveal_strlit("XZ");
            reveal_strlit("UNCOMPRESSED");
            assert(crate::strutil::upper_seq("GZIP"@).len() == 4);
            assert(crate::strutil::upper_seq("BZIP2"@).len() == 5);
            assert(crate::strutil::upper_seq("XZ"@).len() == 2);
            assert(crate::strutil::upper_seq("UNCOMPRESSED"@).len() == 12);
        }
        match self {
            CompressionTypeVariant::GZIP => String::from_str("GZIP"),
            CompressionTypeVariant::BZIP2 => String::from_str("BZIP2"),
            CompressionTypeVariant::XZ => String::from_str("XZ"),
            CompressionTypeVariant::UNCOMPRESSED => String::from_str("UNCOMPRESSED"),
        }
    }
}

} // verus!
