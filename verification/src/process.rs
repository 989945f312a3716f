//! Processes: which directories under `/proc` stand for processes, the
//! parent process number in `/proc/<pid>/stat`, and the walk that finds the
//! processes below a container's init process.

use vstd::prelude::*;
use crate::Error;
use crate::text::{
    chars_of, decimal, is_unicode_ws, is_unicode_ws_exec, leading_digits, lemma_leading_digits,
    parse_i32, parse_i32_exec, push_decimal, split_spaces, split_spaces_exec, string_from_chars,
    views, is_digit, is_alpha, is_digit_exec,
};

verus! {

// ---------------------------------------------------------------------------
// The process list

/// A directory under `/proc` stands for a process when its path holds an
/// ASCII digit.
pub open spec fn names_process(path: Seq<char>) -> bool {
    exists|k: int| 0 <= k < path.len() && is_digit(#[trigger] path[k])
}

/// The process number of the directory `path` under `/proc`, whose last
/// component is `name`: `None` when the directory stands for no process,
/// else what parsing `name` as an `i32` gives.
pub fn pid_of_entry(path: &str, name: &str) -> (res: Option<Result<i32, crate::text::IntErrorKind>>)
    ensures
        !names_process(path@) ==> res is None,
        names_process(path@) ==> match parse_i32(name@) {
            Ok(v) => res == Some(Ok::<i32, crate::text::IntErrorKind>(v as i32)),
            Err(e) => res == Some(Err::<i32, crate::text::IntErrorKind>(e)),
        },
{
    let v = chars_of(path);
    let mut i: usize = 0;
    while i < v.len()
        invariant
            v@ == path@,
            0 <= i <= v@.len(),
            forall|k: int| 0 <= k < i ==> !is_digit(#[trigger] v@[k]),
        decreases v@.len() - i,
    {
        if is_digit_exec(v[i]) {
            return Some(parse_i32_exec(name));
        }
        i = i + 1;
    }
    None
}

// ---------------------------------------------------------------------------
// The parent process number in `/proc/<pid>/stat`
//
// The line is read with the pattern `[0-9]+\s\(.*\) [[:alpha:]] ([0-9]+)`:
// digits, a white-space character and `(`, the command name, in which
// anything but a line break may stand, then `)`, a space, a letter for the
// state, a space and the parent's number. Of all matches the leftmost is
// taken, and of those the one with the longest command name.

/// The part before the command name ends at `e`: a digit before `e`, a
/// white-space character at `e`, `(` after it.
pub open spec fn stat_head_at(s: Seq<char>, e: int) -> bool {
    1 <= e && e + 1 < s.len() && is_digit(s[e - 1]) && is_unicode_ws(s[e]) && s[e + 1] == '('
}

/// The part after the command name begins at `c`: `) `, a letter, a space
/// and a digit.
pub open spec fn stat_tail_at(s: Seq<char>, c: int) -> bool {
    0 <= c && c + 4 < s.len() && s[c] == ')' && s[c + 1] == ' ' && is_alpha(s[c + 2])
        && s[c + 3] == ' ' && is_digit(s[c + 4])
}

/// No line break in `s[i..j]`.
pub open spec fn no_line_break(s: Seq<char>, i: int, j: int) -> bool {
    forall|k: int| i <= k < j ==> #[trigger] s[k] != '\n'
}

/// A match of the pattern whose head ends at `e` and whose tail begins at `c`.
pub open spec fn stat_match(s: Seq<char>, e: int, c: int) -> bool {
    stat_head_at(s, e) && e + 2 <= c && no_line_break(s, e + 2, c) && stat_tail_at(s, c)
}

/// The match that the pattern takes: the leftmost, then the one with the
/// longest command name.
pub open spec fn chosen_stat_match(s: Seq<char>, e: int, c: int) -> bool {
    &&& stat_match(s, e, c)
    &&& forall|e2: int, c2: int| e2 < e ==> !#[trigger] stat_match(s, e2, c2)
    &&& forall|c2: int| c < c2 ==> !#[trigger] stat_match(s, e, c2)
}

/// The digits of `s` from index `i` on.
pub open spec fn digits_from(s: Seq<char>, i: int) -> Seq<char> {
    s.subrange(i, i + leading_digits(s.skip(i), 10))
}

proof fn lemma_digit_run(s: Seq<char>, i: int, j: int)
    requires
        0 <= i <= j <= s.len(),
        forall|k: int| i <= k < j ==> is_digit(#[trigger] s[k]),
        j == s.len() || !is_digit(s[j]),
    ensures
        leading_digits(s.skip(i), 10) == j - i,
{
    let t = s.skip(i);
    lemma_leading_digits(t, 10);
    let l = leading_digits(t, 10) as int;
    if l < j - i {
        assert(t[l] == s[i + l]);
    }
    if l > j - i {
        assert(t[j - i] == s[j]);
    }
}

fn stat_tail_exec(v: &Vec<char>, c: usize) -> (res: bool)
    ensures
        res == stat_tail_at(v@, c as int),
{
    c < v.len() && v.len() - c > 4 && v[c] == ')' && v[c + 1] == ' '
        && (('a' <= v[c + 2] && v[c + 2] <= 'z') || ('A' <= v[c + 2] && v[c + 2] <= 'Z'))
        && v[c + 3] == ' ' && is_digit_exec(v[c + 4])
}

fn digits_exec(v: &Vec<char>, i: usize) -> (res: String)
    requires
        i <= v@.len(),
    ensures
        res@ == digits_from(v@, i as int),
{
    let mut j = i;
    while j < v.len() && is_digit_exec(v[j])
        invariant
            i <= j <= v@.len(),
            forall|k: int| i <= k < j ==> is_digit(#[trigger] v@[k]),
        decreases v@.len() - j,
    {
        j = j + 1;
    }
    proof {
        lemma_digit_run(v@, i as int, j as int);
    }
    string_from_chars(v, i, j)
}

/// There is one match that the pattern takes, if any.
proof fn lemma_chosen_unique(s: Seq<char>, e1: int, c1: int, e2: int, c2: int)
    requires
        chosen_stat_match(s, e1, c1),
        chosen_stat_match(s, e2, c2),
    ensures
        e1 == e2 && c1 == c2,
{
    if e1 < e2 {
        assert(!stat_match(s, e1, c1));
    } else if e2 < e1 {
        assert(!stat_match(s, e2, c2));
    } else if c1 < c2 {
        assert(!stat_match(s, e1, c2));
    } else if c2 < c1 {
        assert(!stat_match(s, e2, c1));
    }
}

/// The digits that the pattern takes for the parent's number, where it
/// matches.
pub open spec fn ppid_digits(s: Seq<char>) -> Option<Seq<char>> {
    if exists|e: int, c: int| chosen_stat_match(s, e, c) {
        let (e, c) = choose|e: int, c: int| chosen_stat_match(s, e, c);
        Some(digits_from(s, c + 4))
    } else {
        None
    }
}

/// The parent's number in the contents `s` of a status file: `None` where
/// the pattern does not match, else what parsing its digits as an `i32`
/// gives.
pub open spec fn ppid_of_stat(s: Seq<char>) -> Option<Result<int, crate::text::IntErrorKind>> {
    match ppid_digits(s) {
        Some(d) => Some(parse_i32(d)),
        None => None,
    }
}

/// The text that the pattern takes for the parent's number in the contents
/// `stat` of `/proc/<pid>/stat`, or `None` where the pattern does not match.
pub fn stat_ppid_text(stat: &str) -> (res: Option<String>)
    ensures
        match ppid_digits(stat@) {
            Some(d) => res matches Some(r) && r@ == d,
            None => res is None,
        },
        res is None <==> forall|e: int, c: int| !#[trigger] stat_match(stat@, e, c),
{
    let v = chars_of(stat);
    let n = v.len();
    let mut e: usize = 1;
    while e < n && n - e > 1
        invariant
            v@ == stat@,
            n == v@.len(),
            1 <= e <= n + 1,
            forall|e2: int, c2: int| e2 < e ==> !#[trigger] stat_match(v@, e2, c2),
        decreases n - e,
    {
        if is_digit_exec(v[e - 1]) && is_unicode_ws_exec(v[e]) && v[e + 1] == '(' {
            let mut lim = e + 2;
            while lim < n && v[lim] != '\n'
                invariant
                    v@ == stat@,
                    n == v@.len(),
                    e + 2 <= lim <= n,
                    no_line_break(v@, e + 2, lim as int),
                decreases n - lim,
            {
                lim = lim + 1;
            }
            let mut c = lim;
            while c > e + 2
                invariant
                    v@ == stat@,
                    n == v@.len(),
                    stat_head_at(v@, e as int),
                    e + 2 <= c <= lim <= n,
                    no_line_break(v@, e + 2, lim as int),
                    lim == n || v@[lim as int] == '\n',
                    forall|e2: int, c2: int| e2 < e ==> !#[trigger] stat_match(v@, e2, c2),
                    forall|c2: int| c <= c2 ==> !#[trigger] stat_match(v@, e as int, c2),
                decreases c,
            {
                c = c - 1;
                if stat_tail_exec(&v, c) {
                    let d = digits_exec(&v, c + 4);
                    assert(chosen_stat_match(stat@, e as int, c as int));
                    proof {
                        let (e1, c1) = choose|e1: int, c1: int| chosen_stat_match(stat@, e1, c1);
                        lemma_chosen_unique(stat@, e1, c1, e as int, c as int);
                    }
                    return Some(d);
                }
            }
        }
        e = e + 1;
    }
    None
}

/// The path of the status file of process `pid`.
pub open spec fn stat_path_of(pid: int) -> Seq<char> {
    "/proc/"@ + decimal(pid as nat) + "/stat"@
}

/// `/proc/<pid>/stat`.
pub fn stat_path(pid: i32) -> (res: String)
    requires
        pid >= 0,
    ensures
        res@ == stat_path_of(pid as int),
{
    let mut s = String::from_str("/proc/");
    push_decimal(&mut s, pid as u64);
    s.append("/stat");
    proof {
        reveal_strlit("/proc/");
        reveal_strlit("/stat");
    }
    s
}

/// The contents `s` of a status file can be reported on: where the parent's
/// number is there but does not fit an `i32`, the error quotes the fourth
/// space-separated field of the line, which must then exist.
pub open spec fn stat_reportable(s: Seq<char>) -> bool {
    ppid_of_stat(s) matches Some(Err(_)) ==> split_spaces(s).len() > 3
}

/// The parent's number in the contents `stat` of the status file at `path`.
pub fn ppid_from_stat(stat: &str, path: &str) -> (res: Result<i32, Error>)
    requires
        stat_reportable(stat@),
    ensures
        match ppid_of_stat(stat@) {
            None => res matches Err(Error::ValueError { msg, val, path: p })
                && msg@ == "Failed to parse PPID from /proc/<pid>/stat"@ && val@ == stat@ && p@ == path@,
            Some(Ok(v)) => res == Ok::<i32, Error>(v as i32),
            Some(Err(_)) => res matches Err(Error::ValueError { msg, val, path: p })
                && msg@ == "Failed to parse PPID from value"@ && val@ == split_spaces(stat@)[3] && p@ == path@,
        },
        ppid_of_stat(stat@) matches Some(Ok(v)) ==> i32::MIN <= v <= i32::MAX,
{
    match stat_ppid_text(stat) {
        None => Err(Error::ValueError {
            msg: String::from_str("Failed to parse PPID from /proc/<pid>/stat"),
            val: String::from_str(stat),
            path: String::from_str(path),
        }),
        Some(d) => match parse_i32_exec(d.as_str()) {
            Ok(v) => Ok(v),
            Err(_) => {
                let tokens = split_spaces_exec(stat);
                Err(Error::ValueError {
                    msg: String::from_str("Failed to parse PPID from value"),
                    val: tokens[3].clone(),
                    path: String::from_str(path),
                })
            }
        },
    }
}

/// Whether the contents `stat` of a status file can be reported on.
pub fn stat_reportable_exec(stat: &str) -> (res: bool)
    ensures
        res == stat_reportable(stat@),
{
    match stat_ppid_text(stat) {
        None => true,
        Some(d) => match parse_i32_exec(d.as_str()) {
            Ok(_) => true,
            Err(_) => {
                let tokens = split_spaces_exec(stat);
                tokens.len() > 3
            }
        },
    }
}

// ---------------------------------------------------------------------------
// The processes of a container
//
// Each listed process is followed up through its parents: it belongs to the
// container when a parent on the way is the container's init process. The
// walk stops for a process at process 1 (or lower), at the init process, or
// where a status file cannot be opened, as the process has gone. Reading the
// status files is left to the caller, who is told which process to read and
// hands back what was read.

/// The first index from `i` on of a process above process 1, or the end of
/// `pids`.
pub open spec fn first_walkable(pids: Seq<i32>, i: int) -> int
    decreases pids.len() - i,
{
    if i >= pids.len() {
        pids.len() as int
    } else if pids[i] > 1 {
        i
    } else {
        first_walkable(pids, i + 1)
    }
}

proof fn lemma_first_walkable(pids: Seq<i32>, i: int)
    requires
        0 <= i <= pids.len(),
    ensures
        i <= first_walkable(pids, i) <= pids.len(),
        first_walkable(pids, i) < pids.len() ==> pids[first_walkable(pids, i)] > 1,
        forall|k: int| i <= k < first_walkable(pids, i) ==> pids[k] <= 1,
    decreases pids.len() - i,
{
    if i < pids.len() && pids[i] <= 1 {
        lemma_first_walkable(pids, i + 1);
    }
}

/// What the walk asks of its caller.
#[derive(Clone, Copy, Debug, PartialEq, Eq, Structural)]
pub enum WalkAction {
    /// Read the status file of this process and hand back its contents,
    /// or nothing where it cannot be opened.
    ReadStat(i32),
    /// The walk is over.
    Done,
}

/// The search for the processes of the container whose init process is
/// `cinit`, among `pids`.
pub struct PidWalk {
    pub cinit: i32,
    pub pids: Vec<i32>,
    /// Index in `pids` of the process being followed.
    pub next: usize,
    /// The process on its way up whose parent is asked for.
    pub current: i32,
    /// The processes found so far, the init process first.
    pub found: Vec<i32>,
}

impl PidWalk {
    /// The state is consistent: the init process comes first among those
    /// found, and every other one found is a process already followed.
    pub open spec fn wf(self) -> bool {
        &&& self.next <= self.pids@.len()
        &&& self.next < self.pids@.len() ==> self.current > 1
        &&& self.found@.len() >= 1
        &&& self.found@[0] == self.cinit
        &&& forall|k: int| 1 <= k < self.found@.len()
            ==> self.pids@.subrange(0, self.next as int).contains(#[trigger] self.found@[k])
    }

    /// The walk went on to the first process from index `i` on that is
    /// above process 1.
    pub open spec fn at_walkable(self, i: int) -> bool {
        &&& self.next == first_walkable(self.pids@, i)
        &&& self.next < self.pids@.len() ==> self.current == self.pids@[self.next as int]
    }

    /// What the walk asks for in this state.
    pub open spec fn spec_action(self) -> WalkAction {
        if self.next < self.pids@.len() {
            WalkAction::ReadStat(self.current)
        } else {
            WalkAction::Done
        }
    }

    fn go_to_walkable(&mut self, i: usize)
        requires
            i <= old(self).pids@.len(),
            old(self).found@.len() >= 1,
            old(self).found@[0] == old(self).cinit,
            forall|k: int| 1 <= k < old(self).found@.len()
                ==> old(self).pids@.subrange(0, i as int).contains(#[trigger] old(self).found@[k]),
        ensures
            final(self).cinit == old(self).cinit,
            final(self).pids@ == old(self).pids@,
            final(self).found@ == old(self).found@,
            final(self).at_walkable(i as int),
            final(self).wf(),
    {
        proof {
            lemma_first_walkable(self.pids@, i as int);
        }
        let mut j = i;
        while j < self.pids.len() && self.pids[j] <= 1
            invariant
                i <= j <= self.pids@.len(),
                first_walkable(self.pids@, i as int) == first_walkable(self.pids@, j as int),
            decreases self.pids@.len() - j,
        {
            j = j + 1;
        }
        self.next = j;
        if j < self.pids.len() {
            self.current = self.pids[j];
        }
        proof {
            lemma_first_walkable(self.pids@, j as int);
            assert forall|k: int| 1 <= k < self.found@.len()
                implies self.pids@.subrange(0, j as int).contains(#[trigger] self.found@[k]) by {
                let w = choose|w: int| 0 <= w < i && self.pids@.subrange(0, i as int)[w] == self.found@[k];
                assert(self.pids@.subrange(0, j as int)[w] == self.found@[k]);
            }
        }
    }

    /// The walk for the container whose init process is `cinit`, over the
    /// processes `pids`: nothing is found yet but the init process, and the
    /// first process above process 1 is followed.
    pub fn new(cinit: i32, pids: Vec<i32>) -> (res: PidWalk)
        ensures
            res.wf(),
            res.cinit == cinit,
            res.pids@ == pids@,
            res.found@ == seq![cinit],
            res.at_walkable(0),
    {
        let mut found = Vec::new();
        found.push(cinit);
        let mut w = PidWalk { cinit, pids, next: 0, current: 0, found };
        w.go_to_walkable(0);
        w
    }

    /// What the walk asks for next.
    pub fn action(&self) -> (res: WalkAction)
        ensures
            res == self.spec_action(),
    {
        if self.next < self.pids.len() {
            WalkAction::ReadStat(self.current)
        } else {
            WalkAction::Done
        }
    }

    /// Takes in the contents of the status file of the process asked for,
    /// or `None` where it could not be opened. Where the file is gone, the
    /// next process is followed. Otherwise the parent's number is read: an
    /// error where it cannot be; the process followed is found where the
    /// parent is the init process, and the next one is followed; the walk
    /// goes up to the parent where it is above process 1; and the next
    /// process is followed where it is not.
    pub fn step(&mut self, stat: Option<&str>) -> (res: Result<(), Error>)
        requires
            old(self).wf(),
            old(self).next < old(self).pids.len(),
            stat matches Some(s) ==> stat_reportable(s@),
        ensures
            final(self).cinit == old(self).cinit,
            final(self).pids@ == old(self).pids@,
            res is Ok ==> final(self).wf(),
            res is Ok ==> step_ok(*old(self), *final(self), match stat { Some(s) => Some(s@), None => None }),
            match stat {
                None => res is Ok && final(self).found@ == old(self).found@
                    && final(self).at_walkable(old(self).next + 1),
                Some(s) => match ppid_of_stat(s@) {
                    None => res matches Err(Error::ValueError { msg, val, path })
                        && msg@ == "Failed to parse PPID from /proc/<pid>/stat"@ && val@ == s@
                        && path@ == stat_path_of(old(self).current as int),
                    Some(Err(_)) => res matches Err(Error::ValueError { msg, val, path })
                        && msg@ == "Failed to parse PPID from value"@ && val@ == split_spaces(s@)[3]
                        && path@ == stat_path_of(old(self).current as int),
                    Some(Ok(ppid)) => res is Ok && if ppid == old(self).cinit {
                        &&& final(self).found@ == old(self).found@.push(old(self).pids@[old(self).next as int])
                        &&& final(self).at_walkable(old(self).next + 1)
                    } else if ppid > 1 {
                        &&& final(self).found@ == old(self).found@
                        &&& final(self).next == old(self).next
                        &&& final(self).current == ppid
                    } else {
                        &&& final(self).found@ == old(self).found@
                        &&& final(self).at_walkable(old(self).next + 1)
                    },
                },
            },
    {
        let i = self.next;
        proof {
            assert forall|k: int| 1 <= k < self.found@.len()
                implies self.pids@.subrange(0, i + 1).contains(#[trigger] self.found@[k]) by {
                let w = choose|w: int| 0 <= w < i && self.pids@.subrange(0, i as int)[w] == self.found@[k];
                assert(self.pids@.subrange(0, i + 1)[w] == self.found@[k]);
            }
        }
        match stat {
            None => {
                self.go_to_walkable(i + 1);
                Ok(())
            }
            Some(s) => {
                let path = stat_path(self.current);
                let ppid = ppid_from_stat(s, path.as_str())?;
                if ppid == self.cinit {
                    let p = self.pids[i];
                    let ghost before = self.found@;
                    self.found.push(p);
                    proof {
                        assert forall|k: int| 1 <= k < self.found@.len()
                            implies self.pids@.subrange(0, i + 1).contains(#[trigger] self.found@[k]) by {
                            if k == before.len() {
                                assert(self.pids@.subrange(0, i + 1)[i as int] == p);
                            }
                        }
                    }
                    self.go_to_walkable(i + 1);
                } else if ppid > 1 {
                    self.current = ppid;
                } else {
                    self.go_to_walkable(i + 1);
                }
                Ok(())
            }
        }
    }

    /// The processes found, the init process first.
    pub fn found(&self) -> (res: Vec<i32>)
        ensures
            res@ == self.found@,
    {
        self.found.clone()
    }
}

// ---------------------------------------------------------------------------
// What the whole walk finds
//
// The status files are described by `parent`: the parent of a process, or
// `None` where its status file cannot be opened.

/// What following the parents from `cur` decides within `n` steps: `true`
/// when a parent is the init process `cinit`, `false` when a process 1 or
/// lower, or a process whose status file cannot be opened, comes first, and
/// `None` when `n` steps do not decide.
pub open spec fn chain(cinit: i32, parent: spec_fn(i32) -> Option<i32>, cur: i32, n: nat) -> Option<bool>
    decreases n,
{
    if cur <= 1 {
        Some(false)
    } else if n == 0 {
        None
    } else {
        match parent(cur) {
            None => Some(false),
            Some(pp) => if pp == cinit { Some(true) } else { chain(cinit, parent, pp, (n - 1) as nat) },
        }
    }
}

/// `p` lies below the init process `cinit`: following its parents reaches
/// `cinit`.
pub open spec fn below(cinit: i32, parent: spec_fn(i32) -> Option<i32>, p: i32) -> bool {
    exists|n: nat| chain(cinit, parent, p, n) == Some(true)
}

/// The processes of `pids` that lie below `cinit`, in order.
pub open spec fn members(cinit: i32, parent: spec_fn(i32) -> Option<i32>, pids: Seq<i32>) -> Seq<i32>
    decreases pids.len(),
{
    if pids.len() == 0 {
        Seq::empty()
    } else {
        let r = members(cinit, parent, pids.drop_last());
        if below(cinit, parent, pids.last()) { r.push(pids.last()) } else { r }
    }
}

/// `cur` is reached from `p` in `k` steps up through parents, none of which
/// decides.
pub open spec fn climbs(cinit: i32, parent: spec_fn(i32) -> Option<i32>, p: i32, cur: i32, k: nat) -> bool
    decreases k,
{
    if k == 0 {
        cur == p
    } else {
        &&& p > 1
        &&& parent(p) is Some
        &&& parent(p)->0 != cinit
        &&& climbs(cinit, parent, parent(p)->0, cur, (k - 1) as nat)
    }
}

/// The status file of process `q` says what `parent` says of it.
pub open spec fn stat_says(stat: Option<Seq<char>>, parent: spec_fn(i32) -> Option<i32>, q: i32) -> bool {
    match parent(q) {
        None => stat is None,
        Some(pp) => stat is Some && ppid_of_stat(stat->0) == Some(Ok::<int, crate::text::IntErrorKind>(pp as int)),
    }
}

/// A successful step of the walk from `before` to `after` on the status
/// file contents `stat`.
pub open spec fn step_ok(before: PidWalk, after: PidWalk, stat: Option<Seq<char>>) -> bool {
    &&& after.cinit == before.cinit
    &&& after.pids@ == before.pids@
    &&& match stat {
        None => after.found@ == before.found@ && after.at_walkable(before.next + 1),
        Some(s) => match ppid_of_stat(s) {
            Some(Ok(ppid)) => if ppid == before.cinit {
                &&& after.found@ == before.found@.push(before.pids@[before.next as int])
                &&& after.at_walkable(before.next + 1)
            } else if ppid > 1 {
                &&& after.found@ == before.found@
                &&& after.next == before.next
                &&& after.current == ppid
            } else {
                &&& after.found@ == before.found@
                &&& after.at_walkable(before.next + 1)
            },
            _ => false,
        },
    }
}

impl PidWalk {
    /// The walk so far agrees with `parent`: it has found exactly the init
    /// process and the processes already followed that lie below it, and the
    /// process whose parent is asked for is reached from the one followed.
    pub open spec fn follows(self, parent: spec_fn(i32) -> Option<i32>) -> bool {
        &&& self.found@ == seq![self.cinit] + members(self.cinit, parent, self.pids@.take(self.next as int))
        &&& self.next < self.pids@.len() ==> exists|k: nat|
            climbs(self.cinit, parent, self.pids@[self.next as int], self.current, k)
    }
}

proof fn lemma_climbs(cinit: i32, parent: spec_fn(i32) -> Option<i32>, p: i32, cur: i32, k: nat)
    requires
        climbs(cinit, parent, p, cur, k),
    ensures
        forall|n: nat| #[trigger] chain(cinit, parent, p, n + k) == chain(cinit, parent, cur, n),
        forall|n: nat| n < k ==> #[trigger] chain(cinit, parent, p, n) is None,
        below(cinit, parent, p) == below(cinit, parent, cur),
    decreases k,
{
    if k > 0 {
        let pp = parent(p)->0;
        lemma_climbs(cinit, parent, pp, cur, (k - 1) as nat);
        assert forall|n: nat| #[trigger] chain(cinit, parent, p, n + k) == chain(cinit, parent, cur, n) by {
            assert(chain(cinit, parent, pp, (n + (k - 1)) as nat) == chain(cinit, parent, cur, n));
        }
        assert forall|n: nat| n < k implies #[trigger] chain(cinit, parent, p, n) is None by {
            if n > 0 {
                assert(chain(cinit, parent, pp, (n - 1) as nat) is None);
            }
        }
    }
    if below(cinit, parent, p) {
        let n = choose|n: nat| chain(cinit, parent, p, n) == Some(true);
        assert(n >= k);
        assert(chain(cinit, parent, p, ((n - k) as nat + k) as nat) == chain(cinit, parent, cur, (n - k) as nat));
    }
    if below(cinit, parent, cur) {
        let m = choose|m: nat| chain(cinit, parent, cur, m) == Some(true);
        assert(chain(cinit, parent, p, m + k) == Some(true));
    }
}

proof fn lemma_climbs_extend(cinit: i32, parent: spec_fn(i32) -> Option<i32>, p: i32, cur: i32, k: nat, pp: i32)
    requires
        climbs(cinit, parent, p, cur, k),
        cur > 1,
        parent(cur) == Some(pp),
        pp != cinit,
    ensures
        climbs(cinit, parent, p, pp, k + 1),
    decreases k,
{
    if k > 0 {
        lemma_climbs_extend(cinit, parent, parent(p)->0, cur, (k - 1) as nat, pp);
        assert(((k + 1) - 1) as nat == ((k - 1) as nat + 1) as nat);
    } else {
        assert(climbs(cinit, parent, pp, pp, 0));
    }
}

/// Processes at or below 1 are skipped without changing what is found.
proof fn lemma_members_skip(cinit: i32, parent: spec_fn(i32) -> Option<i32>, pids: Seq<i32>, i: int, j: int)
    requires
        0 <= i <= j <= pids.len(),
        forall|k: int| i <= k < j ==> pids[k] <= 1,
    ensures
        members(cinit, parent, pids.take(j)) == members(cinit, parent, pids.take(i)),
    decreases j - i,
{
    if i < j {
        lemma_members_skip(cinit, parent, pids, i, j - 1);
        assert(pids.take(j).drop_last() =~= pids.take(j - 1));
        let q = pids[j - 1];
        if below(cinit, parent, q) {
            let n = choose|n: nat| chain(cinit, parent, q, n) == Some(true);
        }
    }
}

proof fn lemma_members_next(cinit: i32, parent: spec_fn(i32) -> Option<i32>, pids: Seq<i32>, i: int)
    requires
        0 <= i < pids.len(),
    ensures
        members(cinit, parent, pids.take(i + 1)) == if below(cinit, parent, pids[i]) {
            members(cinit, parent, pids.take(i)).push(pids[i])
        } else {
            members(cinit, parent, pids.take(i))
        },
{
    assert(pids.take(i + 1).drop_last() =~= pids.take(i));
}

/// A walk that has just started agrees with any description of the status
/// files.
pub proof fn law_walk_starts_agreeing(w: PidWalk, parent: spec_fn(i32) -> Option<i32>)
    requires
        w.found@ == seq![w.cinit],
        w.at_walkable(0),
    ensures
        w.follows(parent),
{
    lemma_first_walkable(w.pids@, 0);
    lemma_members_skip(w.cinit, parent, w.pids@, 0, w.next as int);
    assert(w.pids@.take(0) =~= Seq::<i32>::empty());
    assert(w.found@ =~= seq![w.cinit] + members(w.cinit, parent, w.pids@.take(w.next as int)));
    if w.next < w.pids@.len() {
        assert(climbs(w.cinit, parent, w.pids@[w.next as int], w.current, 0));
    }
}

/// A successful step on a status file that says what `parent` says keeps
/// the walk agreeing with `parent`.
pub proof fn law_walk_step_agrees(before: PidWalk, after: PidWalk, stat: Option<Seq<char>>, parent: spec_fn(i32) -> Option<i32>)
    requires
        before.wf(),
        before.next < before.pids@.len(),
        before.follows(parent),
        stat_says(stat, parent, before.current),
        step_ok(before, after, stat),
    ensures
        after.follows(parent),
{
    let cinit = before.cinit;
    let pids = before.pids@;
    let i = before.next as int;
    let p = pids[i];
    let cur = before.current;
    let k = choose|k: nat| climbs(cinit, parent, p, cur, k);
    lemma_climbs(cinit, parent, p, cur, k);
    lemma_members_next(cinit, parent, pids, i);
    let before_members = members(cinit, parent, pids.take(i));
    match parent(cur) {
        None => {
            assert(!below(cinit, parent, cur)) by {
                if below(cinit, parent, cur) {
                    let n = choose|n: nat| chain(cinit, parent, cur, n) == Some(true);
                }
            }
            assert(stat is None);
            assert(after.found@ == before.found@);
            assert(members(cinit, parent, pids.take(i + 1)) == before_members);
            lemma_moved_on(before, after, parent, i);
        }
        Some(pp) => {
            assert(ppid_of_stat(stat->0) == Some(Ok::<int, crate::text::IntErrorKind>(pp as int)));
            if pp == cinit {
                assert(chain(cinit, parent, cur, 1) == Some(true));
                assert(below(cinit, parent, cur));
                assert(members(cinit, parent, pids.take(i + 1)) == before_members.push(p));
                assert(after.found@ =~= seq![cinit] + members(cinit, parent, pids.take(i + 1)));
                lemma_moved_on(before, after, parent, i);
            } else if pp > 1 {
                lemma_climbs_extend(cinit, parent, p, cur, k, pp);
                assert(after.current == pp);
                assert(climbs(cinit, parent, pids[after.next as int], after.current, k + 1));
            } else {
                assert(!below(cinit, parent, cur)) by {
                    if below(cinit, parent, cur) {
                        let n = choose|n: nat| chain(cinit, parent, cur, n) == Some(true);
                        assert(chain(cinit, parent, pp, (n - 1) as nat) == Some(false));
                    }
                }
                assert(members(cinit, parent, pids.take(i + 1)) == before_members);
                lemma_moved_on(before, after, parent, i);
            }
        }
    }
}

/// After the process at `i` has been decided, going on to the next process
/// above 1 keeps the walk agreeing with `parent`.
proof fn lemma_moved_on(before: PidWalk, after: PidWalk, parent: spec_fn(i32) -> Option<i32>, i: int)
    requires
        0 <= i < before.pids@.len(),
        after.pids@ == before.pids@,
        after.cinit == before.cinit,
        after.at_walkable(i + 1),
        after.found@ == seq![before.cinit] + members(before.cinit, parent, before.pids@.take(i + 1)),
    ensures
        after.follows(parent),
{
    let pids = before.pids@;
    lemma_first_walkable(pids, i + 1);
    lemma_members_skip(before.cinit, parent, pids, i + 1, after.next as int);
    if after.next < pids.len() {
        assert(climbs(before.cinit, parent, pids[after.next as int], after.current, 0));
    }
}

/// When the walk is over, it has found the init process first and then,
/// in the order listed, exactly the listed processes that lie below it.
pub proof fn law_walk_result(w: PidWalk, parent: spec_fn(i32) -> Option<i32>)
    requires
        w.follows(parent),
        w.next == w.pids@.len(),
    ensures
        w.found@ == seq![w.cinit] + members(w.cinit, parent, w.pids@),
{
    assert(w.pids@.take(w.next as int) =~= w.pids@);
}

} // verus!
