//! Format codec for the proprietary photo assets: decodes the capture-date
//! text embedded in the fixed-size header, and re-encodes the trailing
//! image payload under its standalone name.
//!
//! An asset starts with a text block of [`HEADER_LEN`] bytes holding the
//! capture date, and its image payload starts at byte [`PAYLOAD_OFFSET`].
//! The date-bearing prefix of the header text ends at a marker sequence
//! (a control character followed by `" PHOTO - "`), and its three
//! `/`-separated segments carry month, day and year.

use vstd::prelude::*;
use vstd::slice::slice_subrange;
use vstd::slice::slice_to_vec;
use vstd::string::StringExecFns;
use vstd::utf8::decode_utf8;
use vstd::utf8::valid_utf8;
use crate::text::find_char;
use crate::text::first_index_from;
use crate::text::first_token;
use crate::text::first_token_range;
use crate::text::last_token;
use crate::text::last_token_range;
use crate::text::string_chars;
use crate::text::subvec_chars;

verus! {

/// Number of leading asset bytes that hold the embedded capture-date text.
pub const HEADER_LEN: usize = 54;

/// Absolute byte offset at which the image payload of an asset starts.
pub const PAYLOAD_OFFSET: usize = 300;

/// Capture date of one asset, as the three unvalidated tokens extracted
/// from its header text.  The fields are non-empty whenever extraction
/// succeeds; no calendar check is made.
#[derive(Debug)]
pub struct CaptureMetadata {
    pub year: String,
    pub month: String,
    pub day: String,
}

/// Mathematical content of a [`CaptureMetadata`].
pub ghost struct MetadataView {
    pub year: Seq<char>,
    pub month: Seq<char>,
    pub day: Seq<char>,
}

impl View for CaptureMetadata {
    type V = MetadataView;

    open spec fn view(&self) -> MetadataView {
        MetadataView { year: self.year@, month: self.month@, day: self.day@ }
    }
}

/// Why decoding an asset failed.
#[derive(Clone, Copy, Debug, PartialEq, Eq, Structural)]
pub enum FormatError {
    /// The header bytes are not valid UTF-8.
    InvalidUtf8,
    /// The date-bearing prefix holds fewer than three `/`-segments.
    MissingDateSegments,
    /// The segment before the first `/` holds no space-delimited token.
    EmptyMonth,
    /// The segment between the first two `/` is empty.
    EmptyDay,
    /// The segment after the second `/` holds no space-delimited token.
    EmptyYear,
    /// The asset ends before the payload offset.
    PayloadTooShort,
}

/// Marker that ends the date-bearing prefix of the header text.
pub open spec fn marker_seq() -> Seq<char> {
    seq!['\u{4}', ' ', 'P', 'H', 'O', 'T', 'O', ' ', '-', ' ']
}

/// The marker occurs in `s` at position `i`.
pub open spec fn is_marker_at(s: Seq<char>, i: int) -> bool {
    &&& 0 <= i
    &&& i + marker_seq().len() <= s.len()
    &&& s.subrange(i, i + marker_seq().len() as int) == marker_seq()
}

/// Position of the first marker occurrence at or after `i`, if any.
pub open spec fn first_marker_from(s: Seq<char>, i: int) -> Option<int>
    decreases s.len() - i,
{
    if i < 0 || i + marker_seq().len() > s.len() {
        None
    } else if is_marker_at(s, i) {
        Some(i)
    } else {
        first_marker_from(s, i + 1)
    }
}

/// The text with every NUL character removed.
pub open spec fn strip_nuls(s: Seq<char>) -> Seq<char>
    decreases s.len(),
{
    if s.len() == 0 {
        Seq::empty()
    } else if s.last() == '\0' {
        strip_nuls(s.drop_last())
    } else {
        strip_nuls(s.drop_last()).push(s.last())
    }
}

/// Date-bearing prefix: everything before the first marker occurrence, or
/// the whole text when the marker is absent.
pub open spec fn date_prefix(s: Seq<char>) -> Seq<char> {
    match first_marker_from(s, 0) {
        Some(i) => s.subrange(0, i),
        None => s,
    }
}

/// First `HEADER_LEN` bytes of an asset (all of it, when shorter).
pub open spec fn header_region(bytes: Seq<u8>) -> Seq<u8> {
    if bytes.len() <= HEADER_LEN {
        bytes
    } else {
        bytes.subrange(0, HEADER_LEN as int)
    }
}

/// Date extraction from the date-bearing prefix: month is the last
/// space-delimited token before the first `/`, day stands verbatim between
/// the first two `/`, and year is the first space-delimited token of the
/// third segment.
pub open spec fn parse_date_prefix(prefix: Seq<char>) -> Result<MetadataView, FormatError> {
    match first_index_from(prefix, '/', 0) {
        None => Err(FormatError::MissingDateSegments),
        Some(p1) => match first_index_from(prefix, '/', p1 + 1) {
            None => Err(FormatError::MissingDateSegments),
            Some(p2) => {
                let seg0 = prefix.subrange(0, p1);
                let day = prefix.subrange(p1 + 1, p2);
                let seg2 = match first_index_from(prefix, '/', p2 + 1) {
                    Some(p3) => prefix.subrange(p2 + 1, p3),
                    None => prefix.subrange(p2 + 1, prefix.len() as int),
                };
                match last_token(seg0) {
                    None => Err(FormatError::EmptyMonth),
                    Some(month) => if day.len() == 0 {
                        Err(FormatError::EmptyDay)
                    } else {
                        match first_token(seg2) {
                            None => Err(FormatError::EmptyYear),
                            Some(year) => Ok(MetadataView { year, month, day }),
                        }
                    },
                }
            },
        },
    }
}

/// Date extraction from decoded header text: strip NULs, cut at the
/// marker, then parse the date-bearing prefix.
pub open spec fn parse_header_text(text: Seq<char>) -> Result<MetadataView, FormatError> {
    parse_date_prefix(date_prefix(strip_nuls(text)))
}

/// Full extraction contract: the header region must decode as UTF-8, and
/// its text must carry the three date tokens.
pub open spec fn extract_metadata_spec(bytes: Seq<u8>) -> Result<MetadataView, FormatError> {
    let header = header_region(bytes);
    if !valid_utf8(header) {
        Err(FormatError::InvalidUtf8)
    } else {
        parse_header_text(decode_utf8(header))
    }
}

/// Relies on `core::str::from_utf8`: it returns `Ok` exactly on valid
/// UTF-8 input and decodes it.  `vstd::utf8` states the same encoding and
/// ties it to the view of `str`.
#[verifier::external_body]
fn decode_utf8_text(bytes: &[u8]) -> (r: Option<String>)
    ensures
        r is Some <==> valid_utf8(bytes@),
        r matches Some(s) ==> s@ == decode_utf8(bytes@),
{
    match core::str::from_utf8(bytes) {
        Ok(s) => Some(s.to_string()),
        Err(_) => None,
    }
}

/// Relies on `String`'s `FromIterator<char>`: collecting characters
/// yields the string holding exactly those characters in order.
#[verifier::external_body]
fn chars_to_string(v: &Vec<char>) -> (s: String)
    ensures
        s@ == v@,
{
    v.iter().collect()
}

fn marker_char(j: usize) -> (c: char)
    requires
        j < 10,
    ensures
        c == marker_seq()[j as int],
{
    match j {
        0 => '\u{4}',
        1 => ' ',
        2 => 'P',
        3 => 'H',
        4 => 'O',
        5 => 'T',
        6 => 'O',
        7 => ' ',
        8 => '-',
        _ => ' ',
    }
}

fn matches_marker_at(v: &Vec<char>, i: usize) -> (r: bool)
    requires
        i + 10 <= v@.len(),
    ensures
        r == is_marker_at(v@, i as int),
{
    proof {
        assert(marker_seq().len() == 10);
    }
    let n = v.len();
    let mut j: usize = 0;
    while j < 10
        invariant
            j <= 10,
            n == v@.len(),
            i + 10 <= v@.len(),
            forall|k: int| 0 <= k < j ==> v@[i + k] == marker_seq()[k],
        decreases 10 - j,
    {
        if v[i + j] != marker_char(j) {
            proof {
                assert(marker_seq().len() == 10);
                assert(!is_marker_at(v@, i as int)) by {
                    if is_marker_at(v@, i as int) {
                        assert(v@.subrange(i as int, i + 10)[j as int] == v@[i + j]);
                    }
                }
            }
            return false;
        }
        j = j + 1;
    }
    proof {
        assert(v@.subrange(i as int, i + 10) =~= marker_seq());
    }
    true
}

/// Finds the first marker occurrence in `v`.
pub fn find_marker(v: &Vec<char>) -> (r: Option<usize>)
    ensures
        match r {
            Some(i) => first_marker_from(v@, 0) == Some(i as int) && i + 10 <= v@.len(),
            None => first_marker_from(v@, 0) is None,
        },
{
    proof {
        assert(marker_seq().len() == 10);
    }
    let n = v.len();
    let mut i: usize = 0;
    loop
        invariant
            i <= n,
            n == v@.len(),
            first_marker_from(v@, 0) == first_marker_from(v@, i as int),
        decreases n - i,
    {
        if n < 10 || i > n - 10 {
            assert(first_marker_from(v@, i as int) is None);
            return None;
        }
        if matches_marker_at(v, i) {
            return Some(i);
        }
        assert(first_marker_from(v@, i as int) == first_marker_from(v@, i + 1));
        i = i + 1;
    }
}

/// Removes every NUL character of `v`.
pub fn strip_nul_chars(v: &Vec<char>) -> (r: Vec<char>)
    ensures
        r@ == strip_nuls(v@),
{
    let mut r: Vec<char> = Vec::new();
    let mut i: usize = 0;
    while i < v.len()
        invariant
            i <= v@.len(),
            r@ == strip_nuls(v@.subrange(0, i as int)),
        decreases v@.len() - i,
    {
        proof {
            let t = v@.subrange(0, i + 1);
            assert(t.drop_last() =~= v@.subrange(0, i as int));
            assert(t.last() == v@[i as int]);
        }
        let c = v[i];
        if c != '\0' {
            r.push(c);
        }
        i = i + 1;
    }
    proof {
        assert(v@.subrange(0, v@.len() as int) =~= v@);
    }
    r
}

fn parse_prefix_chars(prefix: &Vec<char>) -> (r: Result<CaptureMetadata, FormatError>)
    ensures
        match r {
            Ok(m) => parse_date_prefix(prefix@) == Ok::<MetadataView, FormatError>(m@),
            Err(e) => parse_date_prefix(prefix@) == Err::<MetadataView, FormatError>(e),
        },
{
    let n = prefix.len();
    let p1 = match find_char(prefix, '/', 0) {
        Some(p) => p,
        None => {
            return Err(FormatError::MissingDateSegments);
        },
    };
    let p2 = match find_char(prefix, '/', p1 + 1) {
        Some(p) => p,
        None => {
            return Err(FormatError::MissingDateSegments);
        },
    };
    let seg0 = subvec_chars(prefix, 0, p1);
    let day = subvec_chars(prefix, p1 + 1, p2);
    let seg2_end = match find_char(prefix, '/', p2 + 1) {
        Some(p3) => p3,
        None => prefix.len(),
    };
    let seg2 = subvec_chars(prefix, p2 + 1, seg2_end);
    let month_range = match last_token_range(&seg0) {
        Some(be) => be,
        None => {
            return Err(FormatError::EmptyMonth);
        },
    };
    if day.len() == 0 {
        return Err(FormatError::EmptyDay);
    }
    let year_range = match first_token_range(&seg2) {
        Some(be) => be,
        None => {
            return Err(FormatError::EmptyYear);
        },
    };
    let month_chars = subvec_chars(&seg0, month_range.0, month_range.1);
    let year_chars = subvec_chars(&seg2, year_range.0, year_range.1);
    Ok(CaptureMetadata {
        year: chars_to_string(&year_chars),
        month: chars_to_string(&month_chars),
        day: chars_to_string(&day),
    })
}

/// Extracts the capture date from the header region of an asset's bytes.
pub fn extract_metadata(bytes: &Vec<u8>) -> (r: Result<CaptureMetadata, FormatError>)
    ensures
        match r {
            Ok(m) => extract_metadata_spec(bytes@) == Ok::<MetadataView, FormatError>(m@),
            Err(e) => extract_metadata_spec(bytes@) == Err::<MetadataView, FormatError>(e),
        },
{
    let hlen: usize = if bytes.len() <= HEADER_LEN {
        bytes.len()
    } else {
        HEADER_LEN
    };
    let header = slice_subrange(bytes.as_slice(), 0, hlen);
    proof {
        assert(header@ =~= header_region(bytes@));
    }
    let text = match decode_utf8_text(header) {
        Some(t) => t,
        None => {
            return Err(FormatError::InvalidUtf8);
        },
    };
    let chars = string_chars(text.as_str());
    let pruned = strip_nul_chars(&chars);
    let prefix_end = match find_marker(&pruned) {
        Some(i) => i,
        None => pruned.len(),
    };
    let prefix = subvec_chars(&pruned, 0, prefix_end);
    proof {
        assert(pruned@.subrange(0, pruned@.len() as int) =~= pruned@);
        assert(prefix@ == date_prefix(pruned@));
    }
    parse_prefix_chars(&prefix)
}

/// Suffix of the output filename of a converted asset.
pub open spec fn jpeg_suffix() -> Seq<char> {
    seq!['.', 'j', 'p', 'e', 'g']
}

/// Output filename of a converted asset: year, month and day concatenated
/// without separators, an underscore, the original name, and `.jpeg`.
pub open spec fn output_name(meta: MetadataView, original: Seq<char>) -> Seq<char> {
    meta.year + meta.month + meta.day + seq!['_'] + original + jpeg_suffix()
}

/// Composes the output filename for a converted asset.
pub fn output_file_name(meta: &CaptureMetadata, original_name: &str) -> (r: String)
    ensures
        r@ == output_name(meta@, original_name@),
{
    let mut s = String::new();
    s.append(meta.year.as_str());
    s.append(meta.month.as_str());
    s.append(meta.day.as_str());
    s.append("_");
    s.append(original_name);
    s.append(".jpeg");
    proof {
        reveal_strlit("_");
        reveal_strlit(".jpeg");
        assert("_"@ =~= seq!['_']);
        assert(".jpeg"@ =~= jpeg_suffix());
        assert(s@ =~= output_name(meta@, original_name@));
    }
    s
}

/// Image payload of an asset: every byte from the payload offset on.
pub open spec fn payload_region(bytes: Seq<u8>) -> Seq<u8> {
    bytes.subrange(PAYLOAD_OFFSET as int, bytes.len() as int)
}

/// Extracts the image payload of an asset, byte for byte.  An asset that
/// ends before the payload offset is rejected rather than read as an
/// empty image.
pub fn reencode_payload(bytes: &Vec<u8>) -> (r: Result<Vec<u8>, FormatError>)
    ensures
        bytes@.len() >= PAYLOAD_OFFSET ==> (r matches Ok(p) && p@ == payload_region(bytes@)),
        bytes@.len() < PAYLOAD_OFFSET ==> r == Err::<Vec<u8>, FormatError>(
            FormatError::PayloadTooShort,
        ),
{
    if bytes.len() < PAYLOAD_OFFSET {
        Err(FormatError::PayloadTooShort)
    } else {
        Ok(slice_to_vec(slice_subrange(bytes.as_slice(), PAYLOAD_OFFSET, bytes.len())))
    }
}

/// What converting one asset produces: its payload under its output name.
pub open spec fn convert_spec(bytes: Seq<u8>, original: Seq<char>) -> Result<
    (Seq<char>, Seq<u8>),
    FormatError,
> {
    match extract_metadata_spec(bytes) {
        Err(e) => Err(e),
        Ok(m) => if bytes.len() < PAYLOAD_OFFSET {
            Err(FormatError::PayloadTooShort)
        } else {
            Ok((output_name(m, original), payload_region(bytes)))
        },
    }
}

/// A converted asset: the bytes to write and the filename to write them
/// under, next to the asset itself.
#[derive(Debug)]
pub struct ConvertedImage {
    pub file_name: String,
    pub data: Vec<u8>,
}

/// Converts one asset: decodes its capture date, names the output after
/// it, and re-encodes the image payload unchanged.
pub fn convert_to_jpeg(bytes: &Vec<u8>, original_name: &str) -> (r: Result<
    ConvertedImage,
    FormatError,
>)
    ensures
        match r {
            Ok(img) => convert_spec(bytes@, original_name@) == Ok::<
                (Seq<char>, Seq<u8>),
                FormatError,
            >((img.file_name@, img.data@)),
            Err(e) => convert_spec(bytes@, original_name@) == Err::<
                (Seq<char>, Seq<u8>),
                FormatError,
            >(e),
        },
{
    let meta = match extract_metadata(bytes) {
        Ok(m) => m,
        Err(e) => {
            return Err(e);
        },
    };
    let data = match reencode_payload(bytes) {
        Ok(p) => p,
        Err(e) => {
            return Err(e);
        },
    };
    let file_name = output_file_name(&meta, original_name);
    Ok(ConvertedImage { file_name, data })
}

/// The capture-date fields are non-empty whenever extraction succeeds.
pub proof fn lemma_extracted_fields_nonempty(bytes: Seq<u8>)
    ensures
        extract_metadata_spec(bytes) matches Ok(m) ==> {
            &&& m.year.len() > 0
            &&& m.month.len() > 0
            &&& m.day.len() > 0
        },
{
    let header = header_region(bytes);
    if valid_utf8(header) {
        let prefix = date_prefix(strip_nuls(decode_utf8(header)));
        if let Some(p1) = first_index_from(prefix, '/', 0) {
            if let Some(p2) = first_index_from(prefix, '/', p1 + 1) {
                let seg0 = prefix.subrange(0, p1);
                let seg2 = match first_index_from(prefix, '/', p2 + 1) {
                    Some(p3) => prefix.subrange(p2 + 1, p3),
                    None => prefix.subrange(p2 + 1, prefix.len() as int),
                };
                crate::text::lemma_last_token_nonempty(seg0);
                crate::text::lemma_first_token_nonempty(seg2);
            }
        }
    }
}

/// Two extractions from the same asset bytes see the same capture date:
/// the extraction result is a function of the bytes alone.
pub proof fn lemma_extract_metadata_deterministic(
    bytes: Seq<u8>,
    r1: Result<MetadataView, FormatError>,
    r2: Result<MetadataView, FormatError>,
)
    requires
        r1 == extract_metadata_spec(bytes),
        r2 == extract_metadata_spec(bytes),
    ensures
        r1 == r2,
{
}

} // verus!
