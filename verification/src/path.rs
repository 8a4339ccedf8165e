//! Unix paths as bytes.

use vstd::prelude::*;

verus! {

/// The byte between two parts of a path.
pub const SEPARATOR: u8 = 0x2f;

/// True for a path from the root.
pub open spec fn absolute(path: Seq<u8>) -> bool {
    path.len() > 0 && path[0] == SEPARATOR
}

/// A path, seen from the directory `base`.
pub open spec fn joined(base: Seq<u8>, path: Seq<u8>) -> Seq<u8> {
    if absolute(path) {
        path
    } else if base.len() > 0 && base.last() != SEPARATOR {
        base.push(SEPARATOR) + path
    } else {
        base + path
    }
}

/// The parts of the first `count` bytes of a path, between separators.
pub open spec fn parts(path: Seq<u8>, count: int) -> Seq<Seq<u8>>
    decreases count,
{
    if count <= 0 {
        seq![seq![]]
    } else {
        let front = parts(path, count - 1);
        if path[count - 1] == SEPARATOR {
            front.push(seq![])
        } else {
            front.drop_last().push(front.last().push(path[count - 1]))
        }
    }
}

/// How many of the first `count` parts are components: neither empty nor a dot,
/// except for a dot at the start.
pub open spec fn component_count(parts: Seq<Seq<u8>>, count: int) -> nat
    decreases count,
{
    if count <= 0 {
        0
    } else {
        let part = parts[count - 1];
        component_count(parts, count - 1) + if part.len() > 0 && (part != seq![0x2eu8] || count
            == 1) {
            1nat
        } else {
            0
        }
    }
}

/// How many components a relative path has.
pub open spec fn components(path: Seq<u8>) -> nat {
    let all = parts(path, path.len() as int);
    component_count(all, all.len() as int)
}

pub fn is_absolute(path: &Vec<u8>) -> (result: bool)
    ensures
        result == absolute(path@),
{
    path.len() > 0 && path[0] == SEPARATOR
}

/// A path, seen from a directory.
pub fn join(base: &Vec<u8>, path: &Vec<u8>) -> (result: Vec<u8>)
    ensures
        result@ == joined(base@, path@),
{
    let mut result: Vec<u8> = Vec::new();
    if !is_absolute(path) {
        result.extend_from_slice(base.as_slice());
        if base.len() > 0 && base[base.len() - 1] != SEPARATOR {
            result.push(SEPARATOR);
        }
    }
    result.extend_from_slice(path.as_slice());
    assert(result@ =~= joined(base@, path@));
    result
}

/// Tells whether a relative path has more than one component.
pub fn has_directories(path: &Vec<u8>) -> (result: bool)
    ensures
        result == (components(path@) > 1),
{
    let ghost all = parts(path@, path@.len() as int);
    let mut count: usize = 0;
    let mut first = true;
    let mut length: usize = 0;
    let mut dot = false;
    let mut i: usize = 0;
    while i < path.len()
        invariant
            i <= path.len(),
            ({
                let seen = parts(path@, i as int);
                let last = seen.last();
                &&& seen.len() > 0
                &&& first == (seen.len() == 1)
                &&& length == last.len()
                &&& dot == (last == seq![0x2eu8])
                &&& count == component_count(seen, seen.len() - 1)
                &&& count + length <= i
            }),
        decreases path.len() - i,
    {
        let ghost seen = parts(path@, i as int);
        let ghost next = parts(path@, i + 1);
        if path[i] == SEPARATOR {
            proof {
                assert(next.drop_last() =~= seen);
                lemma_component_count_of(seen, next, seen.len() as int);
            }
            if length > 0 && (!dot || first) {
                count = count + 1;
            }
            first = false;
            length = 0;
            dot = false;
        } else {
            proof {
                lemma_component_count_of(seen, next, seen.len() - 1);
                let dot_part = seq![0x2eu8];
                if seen.last().len() == 0 {
                    assert(next.last()[0] == path@[i as int]);
                    assert(path@[i as int] == 0x2e ==> next.last() =~= dot_part);
                    assert(dot_part[0] == 0x2e);
                } else {
                    assert(next.last().len() != dot_part.len());
                }
            }
            dot = length == 0 && path[i] == 0x2e;
            length = length + 1;
        }
        i = i + 1;
    }
    if length > 0 && (!dot || first) {
        count = count + 1;
    }
    count > 1
}

/// The count of components looks at the parts it counts, and at no others.
proof fn lemma_component_count_of(left: Seq<Seq<u8>>, right: Seq<Seq<u8>>, count: int)
    requires
        count <= left.len(),
        count <= right.len(),
        forall|i: int| 0 <= i < count ==> left[i] == right[i],
    ensures
        component_count(left, count) == component_count(right, count),
    decreases count,
{
    if count > 0 {
        lemma_component_count_of(left, right, count - 1);
    }
}

/// The length of the first `count` bytes of a path without separators and dot
/// parts at their end. The root stays.
pub open spec fn trimmed_length(path: Seq<u8>, count: int) -> int
    decreases count,
{
    if count <= 1 {
        if count == 1 && path[0] == SEPARATOR {
            1
        } else {
            count
        }
    } else if path[count - 1] == SEPARATOR || (path[count - 1] == 0x2e && path[count - 2]
        == SEPARATOR) {
        trimmed_length(path, count - 1)
    } else {
        count
    }
}

/// Where the part that ends at `end` begins.
pub open spec fn part_start(path: Seq<u8>, end: int) -> int
    decreases end,
{
    if end <= 0 || path[end - 1] == SEPARATOR {
        end
    } else {
        part_start(path, end - 1)
    }
}

/// The path without its last component; none for the root and the empty path.
pub open spec fn parent_of(path: Seq<u8>) -> Option<Seq<u8>> {
    let end = trimmed_length(path, path.len() as int);
    if end <= 0 || (end == 1 && path[0] == SEPARATOR) {
        None
    } else {
        Some(path.take(trimmed_length(path, part_start(path, end))))
    }
}

fn trim_length(path: &Vec<u8>, count: usize) -> (length: usize)
    requires
        count <= path@.len(),
    ensures
        length == trimmed_length(path@, count as int),
        length <= count,
{
    let mut end: usize = count;
    while end > 1 && (path[end - 1] == SEPARATOR || (path[end - 1] == 0x2e && path[end - 2]
        == SEPARATOR))
        invariant
            end <= count <= path@.len(),
            trimmed_length(path@, end as int) == trimmed_length(path@, count as int),
        decreases end,
    {
        end = end - 1;
    }
    end
}

/// The path without its last component.
pub fn parent(path: &Vec<u8>) -> (result: Option<Vec<u8>>)
    ensures
        match result {
            Some(directory) => parent_of(path@) == Some(directory@),
            None => parent_of(path@) is None,
        },
{
    let end: usize = trim_length(path, path.len());
    if end == 0 || (end == 1 && path[0] == SEPARATOR) {
        return None;
    }
    let mut start: usize = end;
    while start > 0 && path[start - 1] != SEPARATOR
        invariant
            start <= end <= path@.len(),
            part_start(path@, start as int) == part_start(path@, end as int),
        decreases start,
    {
        start = start - 1;
    }
    let length: usize = trim_length(path, start);
    let mut directory: Vec<u8> = Vec::new();
    let mut i: usize = 0;
    while i < length
        invariant
            i <= length <= path@.len(),
            directory@ == path@.take(i as int),
        decreases length - i,
    {
        directory.push(path[i]);
        i = i + 1;
        assert(directory@ =~= path@.take(i as int));
    }
    Some(directory)
}

} // verus!
