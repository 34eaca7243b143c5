use vstd::prelude::*;
use vstd::string::StrSliceExecFns;
use vstd::utf8::{
    encode_utf8, encode_utf8_valid_utf8, is_char_boundary, is_char_boundary_iff_is_leading_byte,
    is_char_boundary_iff_not_is_continuation_byte, is_char_boundary_start_end_of_seq, valid_utf8,
    valid_utf8_split,
};

use crate::date::Date;
use crate::error::ConvError;
use crate::front_matter::{has_block, is_head_range};
use crate::media::{basename, file_name, find_last, last_index};

verus! {

/// The fields of a source document's metadata block that the conversion reads.
#[derive(Debug, Clone, PartialEq, Eq)]
pub struct DefaultYAMLHdr {
    pub title: Option<String>,
    pub date: Option<Date>,
    pub tags: Vec<String>,
}

/// A source document: its metadata, its file stem, its text and where its
/// body starts in that text.
#[derive(Debug)]
pub struct DefaultReader {
    pub yaml_hdr: Option<DefaultYAMLHdr>,
    pub name_stem: String,
    pub raw: String,
    pub text_start: usize,
}

/// A file name without its extension: up to its last `.`, unless that `.`
/// is its first character or there is none.
pub open spec fn stem(name: Seq<char>) -> Seq<char> {
    if last_index(name, '.') <= 0 {
        name
    } else {
        name.subrange(0, last_index(name, '.'))
    }
}

/// The stem of the last component of a path.
pub fn file_stem(path: &str) -> (r: String)
    ensures
        r@ == stem(basename(path@)),
{
    let name = file_name(path);
    let n = name.unicode_len();
    match find_last(name, '.') {
        Some(k) => {
            if k == 0 {
                assert(name@.subrange(0, n as int) =~= name@);
                name.substring_char(0, n).to_owned()
            } else {
                name.substring_char(0, k).to_owned()
            }
        },
        None => {
            assert(name@.subrange(0, n as int) =~= name@);
            name.substring_char(0, n).to_owned()
        },
    }
}

/// The metadata block of `raw` is found, and the body starts at `start`.
pub open spec fn body_starts_at(raw: Seq<u8>, start: int) -> bool {
    exists|a: int| #[trigger] is_head_range(raw, a, start - 3)
}

/// In valid UTF-8, a character starts right after any ASCII byte.
proof fn lemma_boundary_after_ascii(bytes: Seq<u8>, i: int)
    requires
        valid_utf8(bytes),
        0 <= i < bytes.len(),
        bytes[i] < 128,
    ensures
        is_char_boundary(bytes, i + 1),
{
    is_char_boundary_start_end_of_seq(bytes);
    if i + 1 < bytes.len() {
        is_char_boundary_iff_is_leading_byte(bytes, i);
        valid_utf8_split(bytes, i);
        let tail = bytes.subrange(i, bytes.len() as int);
        let rest = bytes.subrange(i + 1, bytes.len() as int);
        assert(tail[0] == bytes[i]);
        assert(vstd::utf8::pop_first_scalar(tail) =~= rest);
        assert(valid_utf8(rest));
        assert(rest[0] == bytes[i + 1]);
        is_char_boundary_iff_not_is_continuation_byte(bytes, i + 1);
    }
}

impl DefaultReader {
    /// Builds the document read from `path`, whose text is `raw`. `parsed` is
    /// what became of the metadata block that `fetch_yaml_head` finds in
    /// `raw` (`None` where it finds none).
    pub fn from_path(path: &str, raw: String, parsed: Option<Result<DefaultYAMLHdr, String>>) -> (r:
        Result<DefaultReader, ConvError>)
        ensures
            !has_block(encode_utf8(raw@)) ==> (r matches Ok(d) && d.yaml_hdr is None
                && d.text_start == 0),
            has_block(encode_utf8(raw@)) ==> match parsed {
                Some(Ok(h)) => r matches Ok(d) && d.yaml_hdr == Some(h) && body_starts_at(
                    encode_utf8(raw@),
                    d.text_start as int,
                ),
                Some(Err(e)) => r == Err::<DefaultReader, ConvError>(
                    ConvError::MalformedFrontMatter(e),
                ),
                None => r matches Err(ConvError::MalformedFrontMatter(m)) && m@.len() == 0,
            },
            r matches Ok(d) ==> d.raw == raw && d.name_stem@ == stem(basename(path@))
                && is_char_boundary(encode_utf8(raw@), d.text_start as int),
    {
        let name_stem = file_stem(path);
        match DefaultReader::fetch_yaml_head(raw.as_str()) {
            None => {
                proof {
                    encode_utf8_valid_utf8(raw@);
                    is_char_boundary_start_end_of_seq(encode_utf8(raw@));
                }
                Ok(DefaultReader { yaml_hdr: None, name_stem, raw, text_start: 0 })
            },
            Some((a, b)) => {
                match parsed {
                    Some(Ok(h)) => {
                        let text_start = b + 3;
                        assert(is_head_range(encode_utf8(raw@), a as int, text_start - 3));
                        proof {
                            encode_utf8_valid_utf8(raw@);
                            lemma_boundary_after_ascii(encode_utf8(raw@), b + 2);
                        }
                        Ok(DefaultReader { yaml_hdr: Some(h), name_stem, raw, text_start })
                    },
                    Some(Err(e)) => Err(ConvError::MalformedFrontMatter(e)),
                    None => Err(ConvError::MalformedFrontMatter(String::new())),
                }
            },
        }
    }
}

} // verus!
