//! Formats in which MAR data can be exported, chosen by the `Accept` header.
use vstd::prelude::*;

use crate::text::{
    chars_of, lemma_split_on_absent, lemma_trimmed_without_edge_ws, range_eq_str, split_on,
    split_on_range, trim_range, trimmed,
};

verus! {

/// Supported export formats.
#[derive(PartialEq, Eq, Debug, Clone, Copy, Structural)]
pub enum ExportFormat {
    /// Default format is a MAR file (zip archive)
    Mar,
    /// Chunk is a memfault-specific format (it's a container on top of MAR).
    Chunk,
    /// Chunks with a 'CHNK' header and a length field.
    ChunkWrapped,
}

impl Default for ExportFormat {
    fn default() -> (r: Self)
        ensures
            r == ExportFormat::Mar,
    {
        ExportFormat::Mar
    }
}

pub const CONTENT_TYPE_ZIP: &'static str = "application/zip";

pub const CONTENT_TYPE_CHUNK: &'static str = "application/vnd.memfault.chunk";

pub const CONTENT_TYPE_CHUNK_WRAPPED: &'static str = "application/vnd.memfault.chunk-wrapped";

/// Why no export format could be chosen.
#[derive(Debug, Clone, PartialEq, Eq)]
pub enum ExportFormatError {
    /// None of the media types of the `Accept` header (held here) is supported.
    NotSupported(String),
}

/// The format that a media type asks for.
pub open spec fn format_of_mime(m: Seq<char>) -> Option<ExportFormat> {
    if m == "*/*"@ || m == CONTENT_TYPE_ZIP@ {
        Some(ExportFormat::Mar)
    } else if m == CONTENT_TYPE_CHUNK@ {
        Some(ExportFormat::Chunk)
    } else if m == CONTENT_TYPE_CHUNK_WRAPPED@ {
        Some(ExportFormat::ChunkWrapped)
    } else {
        None
    }
}

/// The format of the first supported media type of the list, each media
/// type trimmed of whitespace.
pub open spec fn first_supported(mimes: Seq<Seq<char>>) -> Option<ExportFormat>
    decreases mimes.len(),
{
    if mimes.len() == 0 {
        None
    } else {
        match format_of_mime(trimmed(mimes[0])) {
            Some(f) => Some(f),
            None => first_supported(mimes.drop_first()),
        }
    }
}

/// The format an `Accept` header asks for: that of its first supported media
/// type, media types being separated by commas.
pub open spec fn accepted_format(header: Seq<char>) -> Option<ExportFormat> {
    first_supported(split_on(header, ','))
}

impl ExportFormat {
    pub open spec fn spec_content_type(self) -> Seq<char> {
        match self {
            ExportFormat::Mar => CONTENT_TYPE_ZIP@,
            ExportFormat::Chunk => CONTENT_TYPE_CHUNK@,
            ExportFormat::ChunkWrapped => CONTENT_TYPE_CHUNK_WRAPPED@,
        }
    }

    /// The media type of this format.
    pub fn to_content_type(&self) -> (r: &'static str)
        ensures
            r@ == self.spec_content_type(),
    {
        match self {
            ExportFormat::Mar => CONTENT_TYPE_ZIP,
            ExportFormat::Chunk => CONTENT_TYPE_CHUNK,
            ExportFormat::ChunkWrapped => CONTENT_TYPE_CHUNK_WRAPPED,
        }
    }

    fn from_mime_range(v: &Vec<char>, from: usize, to: usize) -> (r: Option<Self>)
        requires
            from <= to <= v.len(),
        ensures
            r == format_of_mime(v@.subrange(from as int, to as int)),
    {
        if range_eq_str(v, from, to, "*/*") || range_eq_str(v, from, to, CONTENT_TYPE_ZIP) {
            Some(ExportFormat::Mar)
        } else if range_eq_str(v, from, to, CONTENT_TYPE_CHUNK) {
            Some(ExportFormat::Chunk)
        } else if range_eq_str(v, from, to, CONTENT_TYPE_CHUNK_WRAPPED) {
            Some(ExportFormat::ChunkWrapped)
        } else {
            None
        }
    }

    /// The format that one media type asks for.
    pub fn from_mime_type(value: &str) -> (r: Option<Self>)
        ensures
            r == format_of_mime(value@),
    {
        let v = chars_of(value);
        assert(v@.subrange(0, v@.len() as int) =~= v@);
        Self::from_mime_range(&v, 0, v.len())
    }

    /// Picks the format of the first supported media type of an `Accept`
    /// header; an error when none is supported.
    pub fn from_accept_header(value: &str) -> (r: Result<Self, ExportFormatError>)
        ensures
            r is Ok <==> accepted_format(value@) is Some,
            r matches Ok(f) ==> accepted_format(value@) == Some(f),
            r matches Err(ExportFormatError::NotSupported(h)) ==> accepted_format(value@) is None
                && h@ == value@,
    {
        let v = chars_of(value);
        assert(v@.subrange(0, v@.len() as int) =~= v@);
        let ghost pieces = split_on(v@, ',');
        let parts = split_on_range(&v, 0, v.len(), ',');
        let mut i: usize = 0;
        assert(pieces.skip(0) =~= pieces);
        while i < parts.len()
            invariant
                0 <= i <= parts@.len(),
                parts@.len() == pieces.len(),
                pieces == split_on(v@, ','),
                v@ == value@,
                forall|k: int|
                    0 <= k < parts@.len() ==> (#[trigger] parts@[k]).0 <= parts@[k].1 <= v.len()
                        && v@.subrange(parts@[k].0 as int, parts@[k].1 as int) == pieces[k],
                first_supported(pieces) == first_supported(pieces.skip(i as int)),
            decreases parts@.len() - i,
        {
            let (a, b) = parts[i];
            let (ta, tb) = trim_range(&v, a, b);
            let ghost rest = pieces.skip(i as int);
            assert(rest[0] == pieces[i as int]);
            assert(rest.drop_first() =~= pieces.skip(i + 1));
            match Self::from_mime_range(&v, ta, tb) {
                Some(f) => {
                    return Ok(f);
                },
                None => {},
            }
            i = i + 1;
        }
        assert(pieces.skip(i as int).len() == 0);
        Err(ExportFormatError::NotSupported(value.to_owned()))
    }
}

/// The media type of a format asks for that format: an export requested
/// with the `Content-Type` of a format is served in that format.
pub proof fn law_content_type_selects_its_format(f: ExportFormat)
    ensures
        format_of_mime(f.spec_content_type()) == Some(f),
{
    reveal_strlit("*/*");
    reveal_strlit("application/zip");
    reveal_strlit("application/vnd.memfault.chunk");
    reveal_strlit("application/vnd.memfault.chunk-wrapped");
    assert("application/zip"@.len() != "application/vnd.memfault.chunk"@.len());
    assert("application/zip"@.len() != "application/vnd.memfault.chunk-wrapped"@.len());
    assert("application/vnd.memfault.chunk"@.len() != "application/vnd.memfault.chunk-wrapped"@.len());
    assert("*/*"@.len() != "application/vnd.memfault.chunk"@.len());
    assert("*/*"@.len() != "application/vnd.memfault.chunk-wrapped"@.len());
}

/// An `Accept` header that holds just the media type of a format asks for
/// that format: `from_accept_header(f.to_content_type())` gives `Ok(f)`.
pub proof fn law_accept_header_of_content_type(f: ExportFormat)
    ensures
        accepted_format(f.spec_content_type()) == Some(f),
{
    reveal_strlit("application/zip");
    reveal_strlit("application/vnd.memfault.chunk");
    reveal_strlit("application/vnd.memfault.chunk-wrapped");
    let t = f.spec_content_type();
    assert forall|k: int| 0 <= k < t.len() implies #[trigger] t[k] != ',' by {}
    lemma_split_on_absent(t, ',');
    lemma_trimmed_without_edge_ws(t);
    law_content_type_selects_its_format(f);
    assert(split_on(t, ',').drop_first().len() == 0);
}

} // verus!
