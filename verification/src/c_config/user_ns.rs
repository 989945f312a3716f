//! User namespace ID mappings.

use vstd::prelude::*;
use crate::Error;
use crate::c_config::NsInfo;
use crate::text::{IntErrorKind, parse_unsigned, parse_unsigned_exec, tokens, views, split_ascii_whitespace};

verus! {

/// One line of `/proc/<pid>/uid_map` or `gid_map`: IDs `current..current+range`
/// inside the namespace are IDs `parent..parent+range` outside.
#[derive(Clone, Copy, Debug, PartialEq, Eq, Structural)]
pub struct IdMapping {
    pub current: u32,
    pub parent: u32,
    pub range: u32,
}

/// The ID mappings of a process's user namespace, and whether no other user
/// namespace maps any of the same host user IDs.
#[derive(Clone, Debug)]
pub struct UserNsConfig {
    pub uid_map: Vec<IdMapping>,
    pub gid_map: Vec<IdMapping>,
    pub unique_mapping: bool,
}

/// A field of an ID map line, read as a 32-bit unsigned number.
pub open spec fn id_field(t: Seq<char>) -> Result<nat, IntErrorKind> {
    parse_unsigned(t, 10, u32::MAX as nat)
}

/// What a line of an ID map gives: three numbers, or the text of the error.
pub open spec fn id_mapping_of(line: Seq<char>) -> Result<(nat, nat, nat), Seq<char>> {
    let t = tokens(line);
    if t.len() != 3 {
        Err("invalid id_map content"@)
    } else {
        match id_field(t[0]) {
            Err(e) => Err("parse error: "@ + e.spec_message()),
            Ok(a) => match id_field(t[1]) {
                Err(e) => Err("parse error: "@ + e.spec_message()),
                Ok(b) => match id_field(t[2]) {
                    Err(e) => Err("parse error: "@ + e.spec_message()),
                    Ok(c) => Ok((a, b, c)),
                },
            },
        }
    }
}

fn parse_id_field(t: &String) -> (res: Result<u32, Error>)
    ensures
        match id_field(t@) {
            Ok(v) => res == Ok::<u32, Error>(v as u32),
            Err(e) => res matches Err(Error::ConversionFailed(m)) && m@ == "parse error: "@ + e.spec_message(),
        },
        id_field(t@) matches Ok(v) ==> v <= u32::MAX,
{
    match parse_unsigned_exec(t.as_str(), 10, u32::MAX as u64) {
        Ok(v) => Ok(v as u32),
        Err(e) => {
            let mut msg = String::from_str("parse error: ");
            msg.append(e.message());
            Err(Error::ConversionFailed(msg))
        }
    }
}

impl IdMapping {
    /// Reads one line of an ID map: three whitespace-separated numbers.
    pub fn parse(value: &str) -> (res: Result<IdMapping, Error>)
        ensures
            match id_mapping_of(value@) {
                Ok((a, b, c)) => res matches Ok(m) && m.current == a && m.parent == b && m.range == c,
                Err(msg) => res matches Err(Error::ConversionFailed(m)) && m@ == msg,
            },
    {
        let elems = split_ascii_whitespace(value);
        assert(views(elems@).len() == elems@.len());
        if elems.len() != 3 {
            return Err(Error::ConversionFailed(String::from_str("invalid id_map content")));
        }
        assert(views(elems@)[0] == elems@[0]@);
        assert(views(elems@)[1] == elems@[1]@);
        assert(views(elems@)[2] == elems@[2]@);
        let current = match parse_id_field(&elems[0]) {
            Ok(v) => v,
            Err(e) => return Err(e),
        };
        let parent = match parse_id_field(&elems[1]) {
            Ok(v) => v,
            Err(e) => return Err(e),
        };
        let range = match parse_id_field(&elems[2]) {
            Ok(v) => v,
            Err(e) => return Err(e),
        };
        Ok(IdMapping { current, parent, range })
    }
}

/// Whether the host ID ranges of `a` and `b` share an ID.
pub open spec fn ranges_overlap(a: IdMapping, b: IdMapping) -> bool {
    !(a.parent + a.range <= b.parent || b.parent + b.range <= a.parent)
}

/// Whether some mapping of `x` shares a host ID with some mapping of `y`.
pub open spec fn maps_overlap(x: Seq<IdMapping>, y: Seq<IdMapping>) -> bool {
    exists|i: int, j: int| 0 <= i < x.len() && 0 <= j < y.len() && ranges_overlap(#[trigger] x[i], #[trigger] y[j])
}

/// Whether some mapping of `process_map` shares a host ID with some mapping
/// of `own_map`.
pub fn mappings_overlap(process_map: &Vec<IdMapping>, own_map: &Vec<IdMapping>) -> (res: bool)
    ensures
        res == maps_overlap(process_map@, own_map@),
{
    let mut i: usize = 0;
    while i < process_map.len()
        invariant
            0 <= i <= process_map@.len(),
            forall|a: int, b: int| 0 <= a < i && 0 <= b < own_map@.len() ==> !ranges_overlap(#[trigger] process_map@[a], #[trigger] own_map@[b]),
        decreases process_map@.len() - i,
    {
        let p = process_map[i];
        let mut j: usize = 0;
        while j < own_map.len()
            invariant
                0 <= j <= own_map@.len(),
                0 <= i < process_map@.len(),
                p == process_map@[i as int],
                forall|b: int| 0 <= b < j ==> !ranges_overlap(p, #[trigger] own_map@[b]),
            decreases own_map@.len() - j,
        {
            let e = own_map[j];
            let p_end: u64 = p.parent as u64 + p.range as u64;
            let e_end: u64 = e.parent as u64 + e.range as u64;
            if !(p_end <= e.parent as u64 || e_end <= p.parent as u64) {
                assert(ranges_overlap(process_map@[i as int], own_map@[j as int]));
                return true;
            }
            j = j + 1;
        }
        i = i + 1;
    }
    false
}

/// Whether sharing host IDs is symmetric.
pub proof fn law_overlap_symmetric(x: Seq<IdMapping>, y: Seq<IdMapping>)
    ensures
        maps_overlap(x, y) == maps_overlap(y, x),
{
    if maps_overlap(x, y) {
        let (i, j) = choose|i: int, j: int| 0 <= i < x.len() && 0 <= j < y.len() && ranges_overlap(#[trigger] x[i], #[trigger] y[j]);
        assert(ranges_overlap(y[j], x[i]));
    }
    if maps_overlap(y, x) {
        let (i, j) = choose|i: int, j: int| 0 <= i < y.len() && 0 <= j < x.len() && ranges_overlap(#[trigger] y[i], #[trigger] x[j]);
        assert(ranges_overlap(x[j], y[i]));
    }
}

/// Whether another process's user namespace must be checked for a shared
/// mapping: it is not the container's own user namespace nor the initial one,
/// and the initial user namespace owns it.
pub open spec fn ns_considered_spec(process_ns: NsInfo, user_ns: NsInfo, init_user_ns: NsInfo) -> bool {
    process_ns.id != user_ns.id && process_ns.owner == init_user_ns.id && process_ns.id != init_user_ns.id
}

pub fn ns_considered(process_ns: &NsInfo, user_ns: &NsInfo, init_user_ns: &NsInfo) -> (res: bool)
    ensures
        res == ns_considered_spec(*process_ns, *user_ns, *init_user_ns),
{
    process_ns.id != user_ns.id && process_ns.owner == init_user_ns.id && process_ns.id != init_user_ns.id
}

} // verus!
