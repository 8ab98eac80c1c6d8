//! Parsing the discovery command's output into device records.
//!
//! The discovery command prints zero or more lines of the shape
//! `"<name>: <id> <optional extra text>"`, optionally prefixed with the
//! marker `"- "`.  Blank lines are structural and skipped.  Any other line
//! that cannot be split into a name and a non-empty identifier is malformed
//! and rejected as a whole, rather than crashing or being silently dropped.

use vstd::prelude::*;
use vstd::string::StrSliceExecFns;
use vstd::utf8::decode_utf8;
use vstd::utf8::valid_utf8;

use crate::device::Device;
use crate::device::DeviceView;
use crate::text::find_char_from;
use crate::text::first_idx;
use crate::text::first_space_idx;
use crate::text::lemma_first_idx;
use crate::text::list_entries;
use crate::text::nonblank_lines;
use crate::text::token_prefix;
use crate::text::trim_spec;
use crate::text::trim_str;

verus! {

/// Why a discovery output was rejected.
#[derive(Clone, Copy, Debug, PartialEq, Eq, Structural)]
pub enum ParseError {
    /// The raw output was not UTF-8 encoded text.
    Encoding,
    /// A non-blank line did not split into a name and a non-empty identifier.
    MalformedLine,
}

/// A line with its optional leading `"- "` marker removed.
pub open spec fn strip_marker(l: Seq<char>) -> Seq<char> {
    if l.len() >= 2 && l[0] == '-' && l[1] == ' ' {
        l.skip(2)
    } else {
        l
    }
}

/// What one non-blank line of discovery output denotes: the text before the
/// first `:` (trimmed) is the name, and the first blank-delimited token of
/// the trimmed text after it is the identifier.  `None` when the line has no
/// `:` or an empty identifier.
pub open spec fn parse_line_spec(line: Seq<char>) -> Option<DeviceView> {
    let l = strip_marker(line);
    let ci = first_idx(l, ':');
    if !(0 <= ci < l.len()) {
        None
    } else {
        let name = trim_spec(l.take(ci));
        let desc = trim_spec(l.skip(ci + 1));
        let id = desc.take(first_space_idx(desc));
        if id.len() == 0 {
            None
        } else {
            Some(DeviceView { name, id })
        }
    }
}

/// Every non-blank line of `s` is well-formed.
pub open spec fn all_lines_ok(s: Seq<char>) -> bool {
    forall|j: int|
        0 <= j < nonblank_lines(s).len() ==> parse_line_spec(#[trigger] nonblank_lines(s)[j])
            is Some
}

/// The device records of a well-formed discovery output: one per non-blank
/// line, in input order.
pub open spec fn devices_spec(s: Seq<char>) -> Seq<DeviceView> {
    nonblank_lines(s).map_values(|l: Seq<char>| parse_line_spec(l)->0)
}

/// A well-formed discovery output yields exactly one device record per
/// non-blank line, and the record at each position comes from the line at
/// that position: parsing preserves count and input order.
pub proof fn lemma_devices_per_line(s: Seq<char>)
    requires
        all_lines_ok(s),
    ensures
        devices_spec(s).len() == nonblank_lines(s).len(),
        forall|j: int|
            0 <= j < nonblank_lines(s).len() ==> devices_spec(s)[j] == parse_line_spec(
                #[trigger] nonblank_lines(s)[j],
            )->0,
{
}

/// Every device record a well-formed discovery output parses to is valid:
/// its identifier is non-empty, so it may address a transfer.
pub proof fn lemma_parsed_devices_valid(s: Seq<char>)
    requires
        all_lines_ok(s),
    ensures
        forall|j: int|
            0 <= j < devices_spec(s).len() ==> crate::device::valid_device(
                #[trigger] devices_spec(s)[j],
            ),
{
    assert forall|j: int| 0 <= j < devices_spec(s).len() implies crate::device::valid_device(
        devices_spec(s)[j],
    ) by {
        assert(parse_line_spec(nonblank_lines(s)[j]) is Some);
    }
}

/// Parses one non-blank line of discovery output.
pub fn parse_line(line: &str) -> (r: Option<Device>)
    ensures
        r is Some <==> parse_line_spec(line@) is Some,
        r matches Some(d) ==> parse_line_spec(line@) == Some(d@),
{
    let n = line.unicode_len();
    let stripped: &str = if n >= 2 && line.get_char(0) == '-' && line.get_char(1) == ' ' {
        line.substring_char(2, n)
    } else {
        line
    };
    proof {
        assert(stripped@ =~= strip_marker(line@));
    }
    let m = stripped.unicode_len();
    let j = find_char_from(stripped, ':', 0);
    proof {
        lemma_first_idx(stripped@, ':');
        let fi = first_idx(stripped@, ':');
        if j < fi {
            assert(stripped@[j as int] == ':');
            assert(false);
        }
        if fi < j {
            assert(stripped@[fi] == ':');
            assert(false);
        }
    }
    if j == m {
        return None;
    }
    let name = trim_str(stripped.substring_char(0, j));
    let desc = trim_str(stripped.substring_char(j + 1, m));
    proof {
        assert(stripped@.subrange(0, j as int) =~= stripped@.take(j as int));
        assert(stripped@.subrange(j + 1, m as int) =~= stripped@.skip(j + 1));
    }
    let id = token_prefix(desc.as_str());
    if id.as_str().is_empty() {
        return None;
    }
    Some(Device { name, id })
}

/// Parses decoded discovery output: one device per non-blank line, rejecting
/// the whole output when any non-blank line is malformed.
#[verifier::loop_isolation(false)]
pub fn parse_devices(text: &str) -> (r: Result<Vec<Device>, ParseError>)
    ensures
        r matches Ok(devs) ==> all_lines_ok(text@) && devs.deep_view() == devices_spec(text@),
        r matches Err(e) ==> e == ParseError::MalformedLine && !all_lines_ok(text@),
{
    let lines = list_entries(text);
    let ghost dl = nonblank_lines(text@);
    let mut devs: Vec<Device> = Vec::new();
    let mut i: usize = 0;
    while i < lines.len()
        invariant
            i <= lines.len(),
            lines.deep_view() == dl,
            devs.deep_view().len() == i,
            forall|k: int|
                0 <= k < i ==> parse_line_spec(#[trigger] dl[k]) is Some && parse_line_spec(dl[k])
                    == Some(devs.deep_view()[k]),
        decreases lines.len() - i,
    {
        match parse_line(lines[i].as_str()) {
            None => {
                proof {
                    assert(parse_line_spec(dl[i as int]) is None);
                }
                return Err(ParseError::MalformedLine);
            },
            Some(d) => {
                let ghost before = devs.deep_view();
                devs.push(d);
                proof {
                    assert(devs.deep_view() =~= before.push(d@));
                }
            },
        }
        i = i + 1;
    }
    proof {
        assert(devs.deep_view() =~= devices_spec(text@));
    }
    Ok(devs)
}

/// Relies on `String::from_utf8`: it succeeds exactly on UTF-8 encoded bytes
/// and yields the characters those bytes encode.
#[verifier::external_body]
fn utf8_to_string(bytes: Vec<u8>) -> (r: Option<String>)
    ensures
        r is Some <==> valid_utf8(bytes@),
        r matches Some(s) ==> s@ == decode_utf8(bytes@),
{
    String::from_utf8(bytes).ok()
}

/// Parses the raw bytes the discovery command wrote: decodes them as UTF-8,
/// splits them into lines, and builds one device per non-blank line.
pub fn parse_output(bytes: Vec<u8>) -> (r: Result<Vec<Device>, ParseError>)
    ensures
        r == Err::<Vec<Device>, ParseError>(ParseError::Encoding) <==> !valid_utf8(bytes@),
        valid_utf8(bytes@) ==> match r {
            Ok(devs) => all_lines_ok(decode_utf8(bytes@)) && devs.deep_view() == devices_spec(
                decode_utf8(bytes@),
            ),
            Err(e) => e == ParseError::MalformedLine && !all_lines_ok(decode_utf8(bytes@)),
        },
{
    match utf8_to_string(bytes) {
        None => Err(ParseError::Encoding),
        Some(text) => parse_devices(text.as_str()),
    }
}

} // verus!
