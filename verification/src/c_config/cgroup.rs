//! Control groups (version 2) of a process.

use vstd::prelude::*;
use crate::Error;
use crate::text::{tokens, views, split_ascii_whitespace, str_eq, trim, trim_exec};

verus! {

/// Cgroup controllers.
#[derive(Clone, Copy, Debug, PartialEq, Eq, Hash, Structural)]
pub enum Controller {
    Cpu,
    Cpuset,
    Freezer,
    Hugetlb,
    Io,
    Memory,
    PerfEvent,
    Pids,
    Rdma,
    Misc,
}

/// The controller that `name` names in `cgroup.controllers`, if any.
pub open spec fn controller_named(name: Seq<char>) -> Option<Controller> {
    if name == "cpu"@ {
        Some(Controller::Cpu)
    } else if name == "cpuset"@ {
        Some(Controller::Cpuset)
    } else if name == "freezer"@ {
        Some(Controller::Freezer)
    } else if name == "hugetlb"@ {
        Some(Controller::Hugetlb)
    } else if name == "io"@ {
        Some(Controller::Io)
    } else if name == "memory"@ {
        Some(Controller::Memory)
    } else if name == "perf_event"@ {
        Some(Controller::PerfEvent)
    } else if name == "pids"@ {
        Some(Controller::Pids)
    } else if name == "rdma"@ {
        Some(Controller::Rdma)
    } else if name == "misc"@ {
        Some(Controller::Misc)
    } else {
        None
    }
}

impl Controller {
    /// The controller named `value`.
    pub fn from_name(value: &str) -> (res: Result<Controller, Error>)
        ensures
            match controller_named(value@) {
                Some(c) => res == Ok::<Controller, Error>(c),
                None => res matches Err(Error::ConversionFailed(m)) && m@ == "unknown cgroup controller: "@ + value@,
            },
    {
        if str_eq(value, "cpu") {
            Ok(Controller::Cpu)
        } else if str_eq(value, "cpuset") {
            Ok(Controller::Cpuset)
        } else if str_eq(value, "freezer") {
            Ok(Controller::Freezer)
        } else if str_eq(value, "hugetlb") {
            Ok(Controller::Hugetlb)
        } else if str_eq(value, "io") {
            Ok(Controller::Io)
        } else if str_eq(value, "memory") {
            Ok(Controller::Memory)
        } else if str_eq(value, "perf_event") {
            Ok(Controller::PerfEvent)
        } else if str_eq(value, "pids") {
            Ok(Controller::Pids)
        } else if str_eq(value, "rdma") {
            Ok(Controller::Rdma)
        } else if str_eq(value, "misc") {
            Ok(Controller::Misc)
        } else {
            let mut msg = String::from_str("unknown cgroup controller: ");
            msg.append(value);
            Err(Error::ConversionFailed(msg))
        }
    }
}

/// Whether some token of some line of `lines` names controller `c`.
pub open spec fn lines_name_controller(lines: Seq<Seq<char>>, c: Controller) -> bool {
    exists|i: int, j: int|
        0 <= i < lines.len() && 0 <= j < tokens(lines[i]).len() && controller_named(#[trigger] tokens(lines[i])[j]) == Some(c)
}

fn push_unique(v: &mut Vec<Controller>, c: Controller)
    ensures
        forall|d: Controller| final(v)@.contains(d) <==> (old(v)@.contains(d) || d == c),
        old(v)@.no_duplicates() ==> final(v)@.no_duplicates(),
{
    let mut i: usize = 0;
    while i < v.len()
        invariant
            0 <= i <= v@.len(),
            forall|k: int| 0 <= k < i ==> v@[k] != c,
        decreases v@.len() - i,
    {
        if v[i] == c {
            return;
        }
        i = i + 1;
    }
    let ghost prev = v@;
    v.push(c);
    assert forall|d: Controller| v@.contains(d) <==> (prev.contains(d) || d == c) by {
        if v@.contains(d) && d != c {
            let k = choose|k: int| 0 <= k < v@.len() && v@[k] == d;
            assert(prev[k] == d);
        }
        if prev.contains(d) {
            let k = choose|k: int| 0 <= k < prev.len() && prev[k] == d;
            assert(v@[k] == d);
        }
        if d == c {
            assert(v@[prev.len() as int] == c);
        }
    }
}

/// The controllers that the lines of `cgroup.controllers` name, each once;
/// tokens that name no controller are left out.
pub fn controllers_of_lines(lines: &Vec<String>) -> (res: Vec<Controller>)
    ensures
        forall|c: Controller| res@.contains(c) <==> lines_name_controller(views(lines@), c),
        res@.no_duplicates(),
{
    let mut res: Vec<Controller> = Vec::new();
    let mut i: usize = 0;
    while i < lines.len()
        invariant
            0 <= i <= lines@.len(),
            res@.no_duplicates(),
            forall|c: Controller| res@.contains(c) <==> lines_name_controller(views(lines@).take(i as int), c),
        decreases lines@.len() - i,
    {
        let toks = split_ascii_whitespace(lines[i].as_str());
        let ghost line = lines@[i as int]@;
        assert(views(lines@)[i as int] == line);
        let mut j: usize = 0;
        while j < toks.len()
            invariant
                0 <= j <= toks@.len(),
                views(toks@) == tokens(line),
                line == views(lines@)[i as int],
                0 <= i < lines@.len(),
                res@.no_duplicates(),
                forall|c: Controller| res@.contains(c) <==> (lines_name_controller(views(lines@).take(i as int), c)
                    || exists|k: int| 0 <= k < j && controller_named(#[trigger] tokens(line)[k]) == Some(c)),
            decreases toks@.len() - j,
        {
            assert(views(toks@)[j as int] == toks@[j as int]@);
            match Controller::from_name(toks[j].as_str()) {
                Ok(c) => {
                    push_unique(&mut res, c);
                }
                Err(_) => {}
            }
            j = j + 1;
        }
        proof {
            let pre = views(lines@).take(i as int);
            let post = views(lines@).take(i + 1);
            assert forall|c: Controller| lines_name_controller(post, c) <==> (lines_name_controller(pre, c)
                || exists|k: int| 0 <= k < toks@.len() && controller_named(#[trigger] tokens(line)[k]) == Some(c)) by {
                if lines_name_controller(post, c) {
                    let (a, b) = choose|a: int, b: int| 0 <= a < post.len() && 0 <= b < tokens(post[a]).len()
                        && controller_named(#[trigger] tokens(post[a])[b]) == Some(c);
                    if a < i {
                        assert(pre[a] == post[a]);
                        assert(controller_named(tokens(pre[a])[b]) == Some(c));
                    } else {
                        assert(post[a] == line);
                    }
                }
                if lines_name_controller(pre, c) {
                    let (a, b) = choose|a: int, b: int| 0 <= a < pre.len() && 0 <= b < tokens(pre[a]).len()
                        && controller_named(#[trigger] tokens(pre[a])[b]) == Some(c);
                    assert(pre[a] == post[a]);
                    assert(controller_named(tokens(post[a])[b]) == Some(c));
                }
                if exists|k: int| 0 <= k < toks@.len() && controller_named(#[trigger] tokens(line)[k]) == Some(c) {
                    let k = choose|k: int| 0 <= k < toks@.len() && controller_named(#[trigger] tokens(line)[k]) == Some(c);
                    assert(post[i as int] == line);
                    assert(controller_named(tokens(post[i as int])[k]) == Some(c));
                }
            }
        }
        i = i + 1;
    }
    assert(views(lines@).take(lines@.len() as int) =~= views(lines@));
    res
}

/// The cgroup of a process, from the lines of `/proc/<pid>/cgroup`: with
/// cgroup version 2 there is exactly one line, `0::/` followed by the path.
pub fn cgroup_of_lines(lines: &Vec<String>) -> (res: Result<String, Error>)
    requires
        lines@.len() == 1 ==> "0::/"@.is_prefix_of(lines@[0]@),
    ensures
        lines@.len() != 1 ==> res matches Err(Error::CgroupError),
        lines@.len() == 1 ==> (res matches Ok(s) && s@ == lines@[0]@.skip(4)),
{
    if lines.len() != 1 {
        return Err(Error::CgroupError);
    }
    proof {
        reveal_strlit("0::/");
    }
    let v = crate::text::chars_of(lines[0].as_str());
    Ok(crate::text::string_from_chars(&v, 4, v.len()))
}

/// Whether the content of a `memory.max` file sets a limit, that is, does not
/// say `max`.
pub fn memory_limit_set(content: &str) -> (res: bool)
    ensures
        res == (trim(content@) != "max"@),
{
    let t = trim_exec(content);
    !str_eq(t.as_str(), "max")
}

/// The cgroup of a process, the controllers active in it and the limits
/// found in its `cpu.max` and `memory.max` interface files, if any.
#[derive(Clone, Debug)]
pub struct CgroupConfig {
    pub cgroup: String,
    pub controllers: Vec<Controller>,
    pub cpu_max: Option<String>,
    pub memory_max: Option<String>,
}

impl CgroupConfig {
    /// The configuration from what was read; a limit that was not found is
    /// given as the empty string.
    pub fn new(cgroup: String, controllers: Vec<Controller>, cpu_max: String, memory_max: String) -> (res: CgroupConfig)
        ensures
            res.cgroup@ == cgroup@,
            res.controllers@ == controllers@,
            cpu_max@.len() == 0 ==> res.cpu_max is None,
            cpu_max@.len() != 0 ==> (res.cpu_max matches Some(s) && s@ == cpu_max@),
            memory_max@.len() == 0 ==> res.memory_max is None,
            memory_max@.len() != 0 ==> (res.memory_max matches Some(s) && s@ == memory_max@),
    {
        let cpu = if cpu_max.as_str().unicode_len() == 0 { None } else { Some(cpu_max) };
        let mem = if memory_max.as_str().unicode_len() == 0 { None } else { Some(memory_max) };
        CgroupConfig { cgroup, controllers, cpu_max: cpu, memory_max: mem }
    }
}

} // verus!
