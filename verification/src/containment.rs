//! Whether the name of an archive entry stays inside the directory that the
//! archive is extracted into.
//!
//! A name is read as bytes. `/` and `\` both separate segments; a segment
//! `..` steps to the parent, `.` and the empty segment stay in place, any
//! other segment steps into a child.

use vstd::prelude::*;
use vstd::string::*;
use vstd::utf8::encode_utf8;

verus! {

/// Whether `b` separates two segments of a name.
pub open spec fn is_separator(b: u8) -> bool {
    b == 0x2f || b == 0x5c
}

/// The segment `..`.
pub open spec fn parent_segment() -> Seq<u8> {
    seq![0x2eu8, 0x2eu8]
}

/// The segment `.`.
pub open spec fn current_segment() -> Seq<u8> {
    seq![0x2eu8]
}

/// Whether a name starts at a root of its own: with a separator, or with a
/// drive prefix (any byte followed by `:`).
pub open spec fn is_rooted(name: Seq<u8>) -> bool {
    ||| name.len() >= 1 && is_separator(name[0])
    ||| name.len() >= 2 && name[1] == 0x3a
}

/// End of the segment that starts at `start`: the position of the next
/// separator at or after `start`, or the name's length if there is none.
pub open spec fn segment_end(name: Seq<u8>, start: int) -> int
    decreases name.len() - start,
{
    if start < 0 || start >= name.len() || is_separator(name[start]) {
        start
    } else {
        segment_end(name, start + 1)
    }
}

/// Depth below the destination after a segment is walked at `depth`.
pub open spec fn depth_after(segment: Seq<u8>, depth: nat) -> nat {
    if segment == parent_segment() {
        (depth - 1) as nat
    } else if segment == current_segment() || segment.len() == 0 {
        depth
    } else {
        depth + 1
    }
}

/// Whether walking the segments of `name` from the one that starts at
/// `start`, `depth` directories below the destination, ever steps above the
/// destination.
pub open spec fn climbs_out(name: Seq<u8>, start: int, depth: nat) -> bool
    decreases name.len() - start,
{
    if start < 0 || start > name.len() {
        false
    } else {
        let end = segment_end(name, start);
        let segment = name.subrange(start, end);
        if segment == parent_segment() && depth == 0 {
            true
        } else if start <= end < name.len() {
            climbs_out(name, end + 1, depth_after(segment, depth))
        } else {
            false
        }
    }
}

/// Whether an entry of this name would be written outside the destination
/// directory.
pub open spec fn escapes(name: Seq<u8>) -> bool {
    is_rooted(name) || climbs_out(name, 0, 0)
}

/// Whether some entry among `names` escapes the destination directory.
pub open spec fn any_escapes(names: Seq<String>) -> bool {
    exists|i: int| 0 <= i < names.len() && escapes(encode_utf8(#[trigger] names[i]@))
}

/// Within a segment, every position sees the same end.
pub proof fn lemma_segment_end_within(name: Seq<u8>, start: int, at: int)
    requires
        0 <= start <= at <= name.len(),
        forall|k: int| start <= k < at ==> !is_separator(#[trigger] name[k]),
    ensures
        segment_end(name, start) == segment_end(name, at),
    decreases at - start,
{
    if start < at {
        lemma_segment_end_within(name, start + 1, at);
    }
}

/// Decides whether an archive entry of this name would be written outside
/// the destination directory.
pub fn entry_escapes(name: &str) -> (r: bool)
    ensures
        r == escapes(name.spec_bytes()),
{
    let bytes = name.as_bytes();
    let n: usize = bytes.len();
    if n >= 1 && (bytes[0] == 0x2f || bytes[0] == 0x5c) {
        return true;
    }
    if n >= 2 && bytes[1] == 0x3a {
        return true;
    }
    let mut start: usize = 0;
    let mut depth: usize = 0;
    let mut i: usize = 0;
    while i < n
        invariant
            n == bytes@.len(),
            bytes@ == name.spec_bytes(),
            0 <= start <= i <= n,
            depth <= start,
            forall|k: int| start <= k < i ==> !is_separator(#[trigger] bytes@[k]),
            climbs_out(bytes@, 0, 0) == climbs_out(bytes@, start as int, depth as nat),
        decreases n - i,
    {
        if bytes[i] == 0x2f || bytes[i] == 0x5c {
            let parent = i - start == 2 && bytes[start] == 0x2e && bytes[start + 1] == 0x2e;
            let current = i - start == 1 && bytes[start] == 0x2e;
            proof {
                lemma_segment_end_within(bytes@, start as int, i as int);
                let segment = bytes@.subrange(start as int, i as int);
                assert(parent_segment().len() == 2 && parent_segment()[0] == 0x2e
                    && parent_segment()[1] == 0x2e);
                assert(current_segment().len() == 1 && current_segment()[0] == 0x2e);
                assert(parent == (segment =~= parent_segment()));
                assert(current == (segment =~= current_segment()));
            }
            if parent {
                if depth == 0 {
                    return true;
                }
                depth = depth - 1;
            } else if !current && i > start {
                depth = depth + 1;
            }
            start = i + 1;
        }
        i = i + 1;
    }
    proof {
        lemma_segment_end_within(bytes@, start as int, n as int);
        let segment = bytes@.subrange(start as int, n as int);
        assert(parent_segment().len() == 2 && parent_segment()[0] == 0x2e && parent_segment()[1]
            == 0x2e);
        assert((n - start == 2 && bytes@[start as int] == 0x2e && bytes@[start + 1] == 0x2e) == (
        segment =~= parent_segment()));
    }
    n - start == 2 && bytes[start] == 0x2e && bytes[start + 1] == 0x2e && depth == 0
}

/// Decides whether any of the entries would be written outside the
/// destination directory.
pub fn any_entry_escapes(names: &Vec<String>) -> (r: bool)
    ensures
        r == any_escapes(names@),
{
    let mut i: usize = 0;
    while i < names.len()
        invariant
            i <= names.len(),
            forall|k: int| 0 <= k < i ==> !escapes(encode_utf8(#[trigger] names@[k]@)),
        decreases names.len() - i,
    {
        if entry_escapes(names[i].as_str()) {
            return true;
        }
        i = i + 1;
    }
    false
}

} // verus!
