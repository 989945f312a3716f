//! Mount namespaces, their mount points, and the flag files by which mount
//! points shared between namespaces are recognised.

use vstd::prelude::*;
use crate::Error;
use crate::c_config::NsId;
use crate::evaluation::{has_uuid, uuid_at, uuid_char_ok};
use crate::text::{
    chars_of, views, split_spaces, split_spaces_exec, is_unicode_ws, is_unicode_ws_exec, string_from_chars, str_eq,
    starts_with_str, is_digit, is_alpha, is_digit_exec,
};

verus! {

/// A mount namespace: its identifier, the processes in it, its mount
/// points, and the flag files found on them.
#[derive(Clone, Debug)]
pub struct MountNamespace {
    pub ns_id: Option<NsId>,
    pub ns_pids: Vec<i32>,
    pub mounts: Vec<String>,
    pub mountinfo: Vec<String>,
    pub flag_files: Vec<String>,
}

impl MountNamespace {
    /// Whether the namespace has the identifier `id`.
    pub fn has_id(&self, id: &NsId) -> (res: bool)
        ensures
            res == (self.ns_id == Some(*id)),
    {
        match self.ns_id {
            Some(n) => n == *id,
            None => false,
        }
    }
}

/// The mount namespaces of the container, of the reference container, and of
/// the host.
#[derive(Clone, Debug)]
pub struct FsConfig {
    pub container_namespaces: Vec<MountNamespace>,
    pub ref_container_namespaces: Vec<MountNamespace>,
    pub host_namespaces: Vec<MountNamespace>,
}

/// The mount information of one process.
#[derive(Clone, Debug)]
pub struct Info {
    pub ns_id: NsId,
    pub mounts: Vec<String>,
    pub mountinfo: Vec<String>,
    pub mountstats: Vec<String>,
}

impl Info {
    /// Empty mount information.
    pub fn new() -> (res: Info)
        ensures
            res.ns_id == (NsId { st_dev: 0, st_ino: 0 }),
            res.mounts@.len() == 0,
            res.mountinfo@.len() == 0,
            res.mountstats@.len() == 0,
    {
        Info { ns_id: NsId { st_dev: 0, st_ino: 0 }, mounts: Vec::new(), mountinfo: Vec::new(), mountstats: Vec::new() }
    }
}

// ---------------------------------------------------------------------------
// Fields of mount tables


/// A non-empty field without white space.
pub open spec fn is_word(s: Seq<char>) -> bool {
    s.len() > 0 && forall|k: int| 0 <= k < s.len() ==> !is_unicode_ws(#[trigger] s[k])
}

/// A non-empty field of digits.
pub open spec fn is_number(s: Seq<char>) -> bool {
    s.len() > 0 && forall|k: int| 0 <= k < s.len() ==> is_digit(#[trigger] s[k])
}

/// Letters, a colon, and digits, such as `shared:12`.
pub open spec fn is_tag(s: Seq<char>) -> bool {
    exists|p: int| 0 < p < s.len() - 1 && s[p] == ':'
        && (forall|k: int| 0 <= k < p ==> is_alpha(#[trigger] s[k]))
        && (forall|k: int| p < k < s.len() ==> is_digit(#[trigger] s[k]))
}

/// Digits, a colon, and digits, such as `8:1`.
pub open spec fn is_dev_numbers(s: Seq<char>) -> bool {
    exists|p: int| 0 < p < s.len() - 1 && s[p] == ':'
        && (forall|k: int| 0 <= k < p ==> is_digit(#[trigger] s[k]))
        && (forall|k: int| p < k < s.len() ==> is_digit(#[trigger] s[k]))
}

/// Number of fields from `i` on that are tags.
pub open spec fn tag_run(f: Seq<Seq<char>>, i: int) -> nat
    decreases f.len() - i,
{
    if i < 0 || i >= f.len() || !is_tag(f[i]) {
        0
    } else {
        1 + tag_run(f, i + 1)
    }
}

/// The leading characters of `s` that are not white space.
pub open spec fn word_prefix(s: Seq<char>) -> Seq<char>
    decreases s.len(),
{
    if s.len() == 0 || is_unicode_ws(s[0]) {
        Seq::empty()
    } else {
        seq![s[0]] + word_prefix(s.drop_first())
    }
}

/// Whether a line of `/proc/<pid>/mountinfo`, cut into the fields `f` at
/// single spaces, has its mount entry starting at field `j`: mount ID,
/// parent ID, `major:minor`, root, mount point, options, optional tagged
/// fields, `-`, and the file system type.
pub open spec fn mountinfo_at(f: Seq<Seq<char>>, j: int) -> bool {
    let k = tag_run(f, j + 6) as int;
    &&& 0 <= j
    &&& j + 7 + k < f.len()
    &&& f[j].len() > 0 && is_digit(f[j].last())
    &&& is_number(f[j + 1])
    &&& is_dev_numbers(f[j + 2])
    &&& is_word(f[j + 3])
    &&& is_word(f[j + 4])
    &&& is_word(f[j + 5])
    &&& f[j + 6 + k] == seq!['-']
    &&& f[j + 7 + k].len() > 0 && !is_unicode_ws(f[j + 7 + k][0])
}

/// The mount point and file system type of a line of `/proc/<pid>/mountinfo`,
/// taken from the first field at which an entry starts; `None` when there is
/// none.
pub open spec fn mountinfo_of(line: Seq<char>) -> Option<(Seq<char>, Seq<char>)> {
    let f = split_spaces(line);
    if exists|j: int| mountinfo_at(f, j) {
        let j = choose|j: int| mountinfo_at(f, j) && forall|i: int| 0 <= i < j ==> !mountinfo_at(f, i);
        let k = tag_run(f, j + 6) as int;
        Some((f[j + 4], word_prefix(f[j + 7 + k])))
    } else {
        None
    }
}

/// Whether a line of `/proc/<pid>/mounts`, cut into the fields `f`, matches
/// from field `j`: a field ending in a non-space, the file system type, the
/// options, a one-digit field and a field starting with a digit.
pub open spec fn mounts_at(f: Seq<Seq<char>>, j: int) -> bool {
    &&& 0 <= j
    &&& j + 4 < f.len()
    &&& f[j].len() > 0 && !is_unicode_ws(f[j].last())
    &&& is_word(f[j + 1])
    &&& is_word(f[j + 2])
    &&& f[j + 3].len() == 1 && is_digit(f[j + 3][0])
    &&& f[j + 4].len() > 0 && is_digit(f[j + 4][0])
}

/// The mount point and file system type that the mounts pattern captures on a
/// line of `/proc/<pid>/mounts`: the greedy prefix leaves the mount point only
/// the last character of its field.
pub open spec fn mounts_of(line: Seq<char>) -> Option<(Seq<char>, Seq<char>)> {
    let f = split_spaces(line);
    if exists|j: int| mounts_at(f, j) {
        let j = choose|j: int| mounts_at(f, j) && forall|i: int| 0 <= i < j ==> !mounts_at(f, i);
        Some((seq![f[j].last()], f[j + 1]))
    } else {
        None
    }
}

fn word_exec(s: &String) -> (res: bool)
    ensures
        res == is_word(s@),
{
    let v = chars_of(s.as_str());
    if v.len() == 0 {
        return false;
    }
    let mut k: usize = 0;
    while k < v.len()
        invariant
            v@ == s@,
            0 <= k <= v@.len(),
            forall|m: int| 0 <= m < k ==> !is_unicode_ws(#[trigger] v@[m]),
        decreases v@.len() - k,
    {
        if is_unicode_ws_exec(v[k]) {
            return false;
        }
        k = k + 1;
    }
    true
}

fn number_exec(s: &String) -> (res: bool)
    ensures
        res == is_number(s@),
{
    let v = chars_of(s.as_str());
    if v.len() == 0 {
        return false;
    }
    let mut k: usize = 0;
    while k < v.len()
        invariant
            v@ == s@,
            0 <= k <= v@.len(),
            forall|m: int| 0 <= m < k ==> is_digit(#[trigger] v@[m]),
        decreases v@.len() - k,
    {
        if !is_digit_exec(v[k]) {
            return false;
        }
        k = k + 1;
    }
    true
}

/// Whether `s` is letters (or digits, with `digits_first`), a colon, and digits.
fn colon_pair_exec(s: &String, digits_first: bool) -> (res: bool)
    ensures
        digits_first ==> res == is_dev_numbers(s@),
        !digits_first ==> res == is_tag(s@),
{
    let v = chars_of(s.as_str());
    let mut p: usize = 0;
    while p < v.len() && v[p] != ':'
        invariant
            v@ == s@,
            0 <= p <= v@.len(),
            forall|m: int| 0 <= m < p ==> v@[m] != ':',
        decreases v@.len() - p,
    {
        p = p + 1;
    }
    if p == 0 || p >= v.len() || v.len() - p < 2 {
        proof {
            if p < v@.len() {
                assert(v@[p as int] == ':');
            }
            assert forall|q: int| 0 < q < s@.len() - 1 && s@[q] == ':' implies
                !(forall|m: int| 0 <= m < q ==> (if digits_first { is_digit(#[trigger] s@[m]) } else { is_alpha(s@[m]) })) by {
                if q < p {
                    assert(v@[q] != ':');
                } else {
                    assert(p == 0);
                    assert(!is_digit(s@[0]) && !is_alpha(s@[0]));
                }
            }
        }
        return false;
    }
    assert(v@[p as int] == ':');
    let mut ok = true;
    let mut k: usize = 0;
    while k < v.len()
        invariant
            v@ == s@,
            0 < p < v@.len() - 1,
            0 <= k <= v@.len(),
            v@[p as int] == ':',
            forall|m: int| 0 <= m < p ==> v@[m] != ':',
            ok == ((forall|m: int| 0 <= m < p && m < k ==> (if digits_first { is_digit(#[trigger] v@[m]) } else { is_alpha(v@[m]) }))
                && (forall|m: int| p < m < k ==> is_digit(#[trigger] v@[m]))),
        decreases v@.len() - k,
    {
        let c = v[k];
        if k < p {
            let good = if digits_first { is_digit_exec(c) } else { ('a' <= c && c <= 'z') || ('A' <= c && c <= 'Z') };
            if !good {
                ok = false;
            }
        } else if k > p {
            if !is_digit_exec(c) {
                ok = false;
            }
        }
        k = k + 1;
    }
    proof {
        assert forall|q: int| 0 < q < s@.len() - 1 && s@[q] == ':' && q != p implies (
            !(forall|m: int| 0 <= m < q ==> (if digits_first { is_digit(#[trigger] s@[m]) } else { is_alpha(s@[m]) }))
            || !(forall|m: int| q < m < s@.len() ==> is_digit(#[trigger] s@[m]))) by {
            if q < p {
                assert(v@[q] != ':');
            } else {
                assert(!is_digit(s@[p as int]));
                assert(!is_alpha(s@[p as int]));
            }
        }
    }
    ok
}

spec fn tag_at(f: Seq<Seq<char>>, i: int) -> bool {
    0 <= i < f.len() && is_tag(f[i])
}

proof fn lemma_tag_run(f: Seq<Seq<char>>, i: int, n: int)
    requires
        0 <= i,
        0 <= n,
        forall|m: int| i <= m < i + n ==> tag_at(f, m),
        !tag_at(f, i + n),
    ensures
        tag_run(f, i) == n,
    decreases n,
{
    if n > 0 {
        assert(tag_at(f, i));
        lemma_tag_run(f, i + 1, n - 1);
    }
}

fn word_prefix_exec(s: &String) -> (res: String)
    ensures
        res@ == word_prefix(s@),
{
    let v = chars_of(s.as_str());
    let mut k: usize = 0;
    while k < v.len() && !is_unicode_ws_exec(v[k])
        invariant
            v@ == s@,
            0 <= k <= v@.len(),
            forall|m: int| 0 <= m < k ==> !is_unicode_ws(#[trigger] v@[m]),
        decreases v@.len() - k,
    {
        k = k + 1;
    }
    proof {
        lemma_word_prefix(s@, k as int);
    }
    string_from_chars(&v, 0, k)
}

proof fn lemma_word_prefix(s: Seq<char>, k: int)
    requires
        0 <= k <= s.len(),
        forall|m: int| 0 <= m < k ==> !is_unicode_ws(#[trigger] s[m]),
        k == s.len() || is_unicode_ws(s[k]),
    ensures
        word_prefix(s) == s.subrange(0, k),
    decreases k,
{
    if k > 0 {
        assert forall|m: int| 0 <= m < k - 1 implies !is_unicode_ws(#[trigger] s.drop_first()[m]) by {
            assert(s.drop_first()[m] == s[m + 1]);
        }
        if k < s.len() {
            assert(s.drop_first()[k - 1] == s[k]);
        }
        lemma_word_prefix(s.drop_first(), k - 1);
        assert(seq![s[0]] + s.drop_first().subrange(0, k - 1) =~= s.subrange(0, k));
    } else {
        assert(s.subrange(0, 0) =~= Seq::<char>::empty());
    }
}

fn mountinfo_at_exec(f: &Vec<String>, j: usize) -> (res: Option<usize>)
    ensures
        res is Some <==> mountinfo_at(views(f@), j as int),
        res matches Some(k) ==> k == tag_run(views(f@), j + 6),
{
    let ghost fv = views(f@);
    let n = f.len();
    if j >= n || n - j < 8 {
        return None;
    }
    let mut k: usize = 0;
    while j + 6 + k < n && colon_pair_exec(&f[j + 6 + k], false)
        invariant
            fv == views(f@),
            n == f@.len(),
            j + 8 <= n,
            j + 6 + k <= n,
            forall|m: int| j + 6 <= m < j + 6 + k ==> tag_at(fv, m),
        decreases n - (j + 6 + k),
    {
        assert(fv[j + 6 + k] == f@[j + 6 + k as int]@);
        k = k + 1;
    }
    proof {
        if j + 6 + k < n {
            assert(fv[j + 6 + k] == f@[j + 6 + k as int]@);
        }
        lemma_tag_run(fv, j + 6, k as int);
    }
    if j + 6 + k >= n - 1 {
        return None;
    }
    assert(fv[j as int] == f@[j as int]@);
    assert(fv[j + 1] == f@[j + 1]@);
    assert(fv[j + 2] == f@[j + 2]@);
    assert(fv[j + 3] == f@[j + 3]@);
    assert(fv[j + 4] == f@[j + 4]@);
    assert(fv[j + 5] == f@[j + 5]@);
    assert(fv[j + 6 + k] == f@[j + 6 + k as int]@);
    assert(fv[j + 7 + k] == f@[j + 7 + k as int]@);
    let first = chars_of(f[j].as_str());
    let fs_field = chars_of(f[j + 7 + k].as_str());
    let ok = first.len() > 0 && is_digit_exec(first[first.len() - 1])
        && number_exec(&f[j + 1])
        && colon_pair_exec(&f[j + 2], true)
        && word_exec(&f[j + 3])
        && word_exec(&f[j + 4])
        && word_exec(&f[j + 5])
        && str_eq(f[j + 6 + k].as_str(), "-")
        && fs_field.len() > 0 && !is_unicode_ws_exec(fs_field[0]);
    proof {
        reveal_strlit("-");
        assert("-"@ =~= seq!['-']);
    }
    if ok { Some(k) } else { None }
}

/// An entry of `/proc/<pid>/mountinfo`: where it is mounted and the type of
/// file system.
#[derive(Clone, Debug)]
pub struct MountinfoEntry {
    pub mountpoint: String,
    pub fs_type: String,
}

/// Reads the mount point and file system type of a line of
/// `/proc/<pid>/mountinfo`.
pub fn parse_mountinfo(line: &str) -> (res: Option<MountinfoEntry>)
    ensures
        match mountinfo_of(line@) {
            Some((mp, fs)) => res matches Some(e) && e.mountpoint@ == mp && e.fs_type@ == fs,
            None => res is None,
        },
{
    let f = split_spaces_exec(line);
    let ghost fv = views(f@);
    let mut j: usize = 0;
    while j < f.len()
        invariant
            fv == views(f@),
            fv == split_spaces(line@),
            0 <= j <= f@.len(),
            forall|i: int| 0 <= i < j ==> !mountinfo_at(fv, i),
        decreases f@.len() - j,
    {
        match mountinfo_at_exec(&f, j) {
            Some(k) => {
                assert(fv[j as int + 4] == f@[j + 4]@);
                assert(fv[j + 7 + k] == f@[j + 7 + k as int]@);
                let mountpoint = f[j + 4].clone();
                let fs_type = word_prefix_exec(&f[j + 7 + k]);
                proof {
                    let jj = choose|jj: int| mountinfo_at(fv, jj) && forall|i: int| 0 <= i < jj ==> !mountinfo_at(fv, i);
                    assert(jj == j) by {
                        if jj > j {
                            assert(!mountinfo_at(fv, j as int));
                        }
                    }
                }
                return Some(MountinfoEntry { mountpoint, fs_type });
            }
            None => {}
        }
        j = j + 1;
    }
    assert forall|i: int| !mountinfo_at(fv, i) by {
        if 0 <= i && i >= j {
            assert(!(i + 7 < fv.len()));
        }
    }
    None
}

fn mounts_at_exec(f: &Vec<String>, j: usize) -> (res: bool)
    ensures
        res == mounts_at(views(f@), j as int),
{
    let ghost fv = views(f@);
    let n = f.len();
    if j >= n || n - j < 5 {
        return false;
    }
    assert(fv[j as int] == f@[j as int]@);
    assert(fv[j + 1] == f@[j + 1]@);
    assert(fv[j + 2] == f@[j + 2]@);
    assert(fv[j + 3] == f@[j + 3]@);
    assert(fv[j + 4] == f@[j + 4]@);
    let first = chars_of(f[j].as_str());
    let d1 = chars_of(f[j + 3].as_str());
    let d2 = chars_of(f[j + 4].as_str());
    first.len() > 0 && !is_unicode_ws_exec(first[first.len() - 1])
        && word_exec(&f[j + 1])
        && word_exec(&f[j + 2])
        && d1.len() == 1 && is_digit_exec(d1[0])
        && d2.len() > 0 && is_digit_exec(d2[0])
}

/// What the mounts pattern captures on a line of `/proc/<pid>/mounts`.
pub fn parse_mounts(line: &str) -> (res: Option<MountinfoEntry>)
    ensures
        match mounts_of(line@) {
            Some((mp, fs)) => res matches Some(e) && e.mountpoint@ == mp && e.fs_type@ == fs,
            None => res is None,
        },
{
    let f = split_spaces_exec(line);
    let ghost fv = views(f@);
    let mut j: usize = 0;
    while j < f.len()
        invariant
            fv == views(f@),
            fv == split_spaces(line@),
            0 <= j <= f@.len(),
            forall|i: int| 0 <= i < j ==> !mounts_at(fv, i),
        decreases f@.len() - j,
    {
        if mounts_at_exec(&f, j) {
            assert(fv[j as int] == f@[j as int]@);
            assert(fv[j + 1] == f@[j + 1]@);
            let first = chars_of(f[j].as_str());
            let mut mountpoint = String::new();
            crate::text::push_char(&mut mountpoint, first[first.len() - 1]);
            let fs_type = f[j + 1].clone();
            proof {
                let jj = choose|jj: int| mounts_at(fv, jj) && forall|i: int| 0 <= i < jj ==> !mounts_at(fv, i);
                assert(jj == j) by {
                    if jj > j {
                        assert(!mounts_at(fv, j as int));
                    }
                }
                assert(mountpoint@ =~= seq![fv[j as int].last()]);
            }
            return Some(MountinfoEntry { mountpoint, fs_type });
        }
        j = j + 1;
    }
    assert forall|i: int| !mounts_at(fv, i) by {
        if 0 <= i && i >= j {
            assert(!(i + 4 < fv.len()));
        }
    }
    None
}

// ---------------------------------------------------------------------------
// Flag files

/// The beginning of the name of every flag file.
pub open spec fn flag_base_name() -> Seq<char> {
    "xyz_checkc_flag"@
}

/// The text that every flag file name begins with.
pub fn flag_base() -> (res: &'static str)
    ensures
        res@ == flag_base_name(),
{
    "xyz_checkc_flag"
}

/// File systems on which no flag file is written.
pub open spec fn flag_skip_fs() -> Seq<Seq<char>> {
    seq!["devtmpfs"@, "proc"@, "sysfs"@, "devpts"@, "cgroup"@, "cgroup2"@]
}

fn is_flag_skip_fs(fs: &String) -> (res: bool)
    ensures
        res == flag_skip_fs().contains(fs@),
{
    let r = str_eq(fs.as_str(), "devtmpfs") || str_eq(fs.as_str(), "proc") || str_eq(fs.as_str(), "sysfs")
        || str_eq(fs.as_str(), "devpts") || str_eq(fs.as_str(), "cgroup") || str_eq(fs.as_str(), "cgroup2");
    proof {
        let l = flag_skip_fs();
        if l.contains(fs@) {
            let k = choose|k: int| 0 <= k < l.len() && l[k] == fs@;
            assert(k == 0 || k == 1 || k == 2 || k == 3 || k == 4 || k == 5);
        }
        if r {
            if fs@ == "devtmpfs"@ { assert(l[0] == fs@); }
            if fs@ == "proc"@ { assert(l[1] == fs@); }
            if fs@ == "sysfs"@ { assert(l[2] == fs@); }
            if fs@ == "devpts"@ { assert(l[3] == fs@); }
            if fs@ == "cgroup"@ { assert(l[4] == fs@); }
            if fs@ == "cgroup2"@ { assert(l[5] == fs@); }
        }
    }
    r
}

/// The name of the flag files of one run, made from a UUID.
pub fn flag_file_name(uuid: &str) -> (res: String)
    ensures
        res@ == flag_base_name() + "_"@ + uuid@,
{
    let mut s = String::from_str("xyz_checkc_flag");
    s.append("_");
    s.append(uuid);
    s
}

/// `Uuid::new_v4().to_string()` of the `uuid` crate: a random UUID in its
/// hyphenated lower-case form. Which UUID comes is chance; every one has 36
/// characters, lower-case hexadecimal digits with hyphens at positions 8,
/// 13, 18 and 23.
#[verifier::external_body]
fn new_uuid_text() -> (res: String)
    ensures
        res@.len() == 36,
        uuid_at(res@, 0),
{
    uuid::Uuid::new_v4().to_string()
}

/// A flag file name made from a UUID holds that UUID, so the evaluation
/// recognises it as a flag of a run.
pub proof fn law_flag_name_has_uuid(u: Seq<char>)
    requires
        u.len() == 36,
        uuid_at(u, 0),
    ensures
        uuid_at(flag_base_name() + "_"@ + u, 16),
        has_uuid(flag_base_name() + "_"@ + u),
{
    reveal_strlit("xyz_checkc_flag");
    reveal_strlit("_");
    let name = flag_base_name() + "_"@ + u;
    assert(name.len() == 52);
    assert forall|k: int| 0 <= k < 36 implies uuid_char_ok(#[trigger] name[16 + k], k) by {
        assert(name[16 + k] == u[k]);
        assert(uuid_char_ok(u[0 + k], k));
    }
    assert(uuid_at(name, 16));
}

/// The flag file name of a new run: the base name, `_` and a fresh random
/// UUID, which the evaluation recognises.
pub fn new_flag_file_name() -> (res: String)
    ensures
        exists|u: Seq<char>| u.len() == 36 && uuid_at(u, 0) && res@ == flag_base_name() + "_"@ + u,
        has_uuid(res@),
{
    let u = new_uuid_text();
    let res = flag_file_name(u.as_str());
    proof {
        law_flag_name_has_uuid(u@);
    }
    res
}

/// Where the flag file `flag_file` is to be written for the mount entry
/// `line` of `/proc/<pid>/mountinfo`: on the mount point, unless the file
/// system is one that takes no flag files.
pub fn flag_target(line: &str, flag_file: &str) -> (res: Result<Option<String>, Error>)
    ensures
        match mountinfo_of(line@) {
            None => res matches Err(Error::ValueError { msg, val, path })
                && msg@ == "Failed to parse mountinfo from mount point "@ + line@ && val@ == line@ && path@.len() == 0,
            Some((mp, fs)) => if flag_skip_fs().contains(fs) {
                res matches Ok(None)
            } else {
                res matches Ok(Some(p)) && p@ == mp + "/"@ + flag_file@
            },
        },
{
    match parse_mountinfo(line) {
        None => {
            let mut msg = String::from_str("Failed to parse mountinfo from mount point ");
            msg.append(line);
            Err(Error::ValueError { msg, val: String::from_str(line), path: String::new() })
        }
        Some(entry) => {
            if is_flag_skip_fs(&entry.fs_type) {
                Ok(None)
            } else {
                let mut p = entry.mountpoint;
                p.append("/");
                p.append(flag_file);
                Ok(Some(p))
            }
        }
    }
}

/// The mount point under which the host searches for flag files, for the
/// mount entry `line` of `/proc/<pid>/mountinfo`.
pub fn search_root(line: &str) -> (res: Result<String, Error>)
    ensures
        match mountinfo_of(line@) {
            None => res matches Err(Error::ValueError { msg, val, path })
                && msg@ == "Failed to parse mountinfo from entry"@ && val@ == line@ && path@.len() == 0,
            Some((mp, _)) => res matches Ok(p) && p@ == mp,
        },
{
    match parse_mountinfo(line) {
        None => Err(Error::ValueError {
            msg: String::from_str("Failed to parse mountinfo from entry"),
            val: String::from_str(line),
            path: String::new(),
        }),
        Some(entry) => Ok(entry.mountpoint),
    }
}

fn string_in(s: &String, list: &Vec<String>) -> (res: bool)
    ensures
        res == views(list@).contains(s@),
{
    let mut i: usize = 0;
    while i < list.len()
        invariant
            0 <= i <= list@.len(),
            forall|k: int| 0 <= k < i ==> views(list@)[k] != s@,
        decreases list@.len() - i,
    {
        assert(views(list@)[i as int] == list@[i as int]@);
        if list[i] == *s {
            return true;
        }
        i = i + 1;
    }
    false
}

/// Whether a line of `/proc/<pid>/mounts` is kept: it matches the mounts
/// pattern, and neither its file system type is in `fs_skips` nor what the
/// pattern takes as its mount point is in `path_skips`.
pub fn keep_mounts_entry(line: &str, fs_skips: &Vec<String>, path_skips: &Vec<String>) -> (res: bool)
    ensures
        res == match mounts_of(line@) {
            None => false,
            Some((mp, fs)) => !views(fs_skips@).contains(fs) && !views(path_skips@).contains(mp),
        },
{
    match parse_mounts(line) {
        None => false,
        Some(entry) => !string_in(&entry.fs_type, fs_skips) && !string_in(&entry.mountpoint, path_skips),
    }
}

/// Whether one of `list` is a prefix of `s`.
fn any_is_prefix(s: &String, list: &Vec<String>) -> (res: bool)
    ensures
        res == exists|k: int| 0 <= k < list@.len() && (#[trigger] list@[k])@.is_prefix_of(s@),
{
    let mut i: usize = 0;
    while i < list.len()
        invariant
            0 <= i <= list@.len(),
            forall|k: int| 0 <= k < i ==> !(#[trigger] list@[k])@.is_prefix_of(s@),
        decreases list@.len() - i,
    {
        let hit = starts_with_str(s.as_str(), list[i].as_str());
        if hit {
            assert(list@[i as int]@.is_prefix_of(s@));
            return true;
        }
        i = i + 1;
    }
    false
}

/// Whether a line of `/proc/<pid>/mountinfo` is kept: it is an entry, its
/// file system type is not in `fs_skips`, and its mount point begins with
/// none of `path_skips`.
pub fn keep_mountinfo_entry(line: &str, fs_skips: &Vec<String>, path_skips: &Vec<String>) -> (res: bool)
    ensures
        res == match mountinfo_of(line@) {
            None => false,
            Some((mp, fs)) => !views(fs_skips@).contains(fs)
                && !(exists|k: int| 0 <= k < path_skips@.len() && (#[trigger] path_skips@[k])@.is_prefix_of(mp)),
        },
{
    match parse_mountinfo(line) {
        None => false,
        Some(entry) => {
            if string_in(&entry.fs_type, fs_skips) {
                return false;
            }
            !any_is_prefix(&entry.mountpoint, path_skips)
        }
    }
}

// ---------------------------------------------------------------------------
// Grouping processes by mount namespace

/// Whether process `p` is looked at: with a list of processes to keep, when it is on
/// it; with an exclude list, when it is not.
pub open spec fn pid_selected_spec(pids: Option<(Seq<i32>, bool)>, p: i32) -> bool {
    match pids {
        None => true,
        Some((list, wanted)) => if wanted { list.contains(p) } else { !list.contains(p) },
    }
}

pub fn pid_selected(pid_cfg: Option<(&Vec<i32>, bool)>, p: i32) -> (res: bool)
    ensures
        res == pid_selected_spec(match pid_cfg { Some((l, b)) => Some((l@, b)), None => None }, p),
{
    match pid_cfg {
        None => true,
        Some((list, wanted)) => {
            let mut found = false;
            let mut i: usize = 0;
            while i < list.len()
                invariant
                    0 <= i <= list@.len(),
                    found == exists|k: int| 0 <= k < i && list@[k] == p,
                decreases list@.len() - i,
            {
                if list[i] == p {
                    found = true;
                }
                i = i + 1;
            }
            if wanted { found } else { !found }
        }
    }
}

/// Whether the mount namespaces of `nss` have identifiers, each a different one.
pub open spec fn ns_ids_unique(nss: Seq<MountNamespace>) -> bool {
    &&& forall|i: int| 0 <= i < nss.len() ==> (#[trigger] nss[i]).ns_id is Some
    &&& forall|i: int, j: int| 0 <= i < j < nss.len() ==> #[trigger] nss[i].ns_id != #[trigger] nss[j].ns_id
}

/// Which mount namespace of `nss` has the identifier `id`: `Ok(None)` when
/// none has, `Ok(Some(i))` when only the `i`-th has, `Err(())` when several have.
pub fn namespace_index(nss: &Vec<MountNamespace>, id: NsId) -> (res: Result<Option<usize>, ()>)
    ensures
        res matches Ok(None) ==> forall|k: int| 0 <= k < nss@.len() ==> (#[trigger] nss@[k]).ns_id != Some(id),
        res matches Ok(Some(i)) ==> i < nss@.len() && nss@[i as int].ns_id == Some(id)
            && forall|k: int| 0 <= k < nss@.len() && k != i ==> (#[trigger] nss@[k]).ns_id != Some(id),
        res is Err ==> exists|a: int, b: int| 0 <= a < b < nss@.len() && (#[trigger] nss@[a]).ns_id == Some(id)
            && (#[trigger] nss@[b]).ns_id == Some(id),
{
    let mut found: Option<usize> = None;
    let mut i: usize = 0;
    while i < nss.len()
        invariant
            0 <= i <= nss@.len(),
            found matches None ==> forall|k: int| 0 <= k < i ==> (#[trigger] nss@[k]).ns_id != Some(id),
            found matches Some(f) ==> f < i && nss@[f as int].ns_id == Some(id)
                && forall|k: int| 0 <= k < i && k != f ==> (#[trigger] nss@[k]).ns_id != Some(id),
        decreases nss@.len() - i,
    {
        if nss[i].has_id(&id) {
            match found {
                Some(f) => {
                    assert(nss@[f as int].ns_id == Some(id) && nss@[i as int].ns_id == Some(id));
                    return Err(());
                }
                None => {
                    found = Some(i);
                }
            }
        }
        i = i + 1;
    }
    Ok(found)
}

/// The items of `v`, each once, in order of first occurrence.
pub open spec fn dedup(v: Seq<Seq<char>>) -> Seq<Seq<char>>
    decreases v.len(),
{
    if v.len() == 0 {
        Seq::empty()
    } else {
        let d = dedup(v.drop_last());
        if d.contains(v.last()) { d } else { d.push(v.last()) }
    }
}

fn dedup_strings(v: &Vec<String>) -> (res: Vec<String>)
    ensures
        views(res@) == dedup(views(v@)),
{
    let mut res: Vec<String> = Vec::new();
    let mut i: usize = 0;
    while i < v.len()
        invariant
            0 <= i <= v@.len(),
            views(res@) == dedup(views(v@).take(i as int)),
        decreases v@.len() - i,
    {
        assert(views(v@).take(i + 1).drop_last() =~= views(v@).take(i as int));
        assert(views(v@).take(i + 1).last() == v@[i as int]@);
        let s = v[i].clone();
        if !string_in(&s, &res) {
            let ghost prev = res@;
            res.push(s);
            assert(views(res@) =~= views(prev).push(s@));
        }
        i = i + 1;
    }
    assert(views(v@).take(v@.len() as int) =~= views(v@));
    res
}

/// A new mount namespace entry for the mount information `info` of process `pid`.
pub fn new_mount_namespace(info: &Info, pid: i32) -> (res: MountNamespace)
    ensures
        res.ns_id == Some(info.ns_id),
        res.ns_pids@ == seq![pid],
        views(res.mounts@) == dedup(views(info.mounts@)),
        views(res.mountinfo@) == dedup(views(info.mountinfo@)),
        res.flag_files@.len() == 0,
{
    let mut ns_pids: Vec<i32> = Vec::new();
    ns_pids.push(pid);
    assert(ns_pids@ =~= seq![pid]);
    MountNamespace {
        ns_id: Some(info.ns_id),
        ns_pids,
        mounts: dedup_strings(&info.mounts),
        mountinfo: dedup_strings(&info.mountinfo),
        flag_files: Vec::new(),
    }
}

/// Adding a namespace whose identifier is new keeps the identifiers unique,
/// and a namespace is then found by its identifier without ambiguity.
pub proof fn law_namespace_ids_stay_unique(nss: Seq<MountNamespace>, ns: MountNamespace)
    requires
        ns_ids_unique(nss),
        ns.ns_id is Some,
        forall|k: int| 0 <= k < nss.len() ==> (#[trigger] nss[k]).ns_id != ns.ns_id,
    ensures
        ns_ids_unique(nss.push(ns)),
        forall|a: int, b: int| 0 <= a < b < nss.push(ns).len() ==> (#[trigger] nss.push(ns)[a]).ns_id != (#[trigger] nss.push(ns)[b]).ns_id,
{
    let n = nss.push(ns);
    assert forall|i: int| 0 <= i < n.len() implies (#[trigger] n[i]).ns_id is Some by {
        if i < nss.len() {
            assert(n[i] == nss[i]);
        }
    }
    assert forall|i: int, j: int| 0 <= i < j < n.len() implies #[trigger] n[i].ns_id != #[trigger] n[j].ns_id by {
        assert(n[i] == nss[i]);
        if j < nss.len() {
            assert(n[j] == nss[j]);
        }
    }
}

/// The flag files after adding `entries` found under `mountpoint`: entries
/// equal to the mount point itself, and entries already recorded, are left out.
pub open spec fn add_flags(acc: Seq<Seq<char>>, entries: Seq<Seq<char>>, mountpoint: Seq<char>) -> Seq<Seq<char>>
    decreases entries.len(),
{
    if entries.len() == 0 {
        acc
    } else {
        let a = add_flags(acc, entries.drop_last(), mountpoint);
        let e = entries.last();
        if e == mountpoint || a.contains(e) { a } else { a.push(e) }
    }
}

/// Recording the flag files found under a mount point keeps the record free
/// of repeats and of the mount point itself; every file found other than the
/// mount point is recorded, and nothing else is.
pub proof fn law_flag_files_stay_unique(acc: Seq<Seq<char>>, entries: Seq<Seq<char>>, mountpoint: Seq<char>)
    requires
        acc.no_duplicates(),
        !acc.contains(mountpoint),
    ensures
        add_flags(acc, entries, mountpoint).no_duplicates(),
        !add_flags(acc, entries, mountpoint).contains(mountpoint),
        forall|e: Seq<char>| entries.contains(e) && e != mountpoint ==> add_flags(acc, entries, mountpoint).contains(e),
        forall|e: Seq<char>| add_flags(acc, entries, mountpoint).contains(e) ==> acc.contains(e) || entries.contains(e),
    decreases entries.len(),
{
    if entries.len() > 0 {
        let rest = entries.drop_last();
        law_flag_files_stay_unique(acc, rest, mountpoint);
        let a = add_flags(acc, rest, mountpoint);
        let x = entries.last();
        let r = add_flags(acc, entries, mountpoint);
        assert(r == if x == mountpoint || a.contains(x) { a } else { a.push(x) });
        assert forall|e: Seq<char>| entries.contains(e) && e != mountpoint implies r.contains(e) by {
            let k = choose|k: int| 0 <= k < entries.len() && entries[k] == e;
            if k < entries.len() - 1 {
                assert(rest[k] == e);
                assert(rest.contains(e));
                assert(a.contains(e));
                if !(x == mountpoint || a.contains(x)) {
                    let j = choose|j: int| 0 <= j < a.len() && a[j] == e;
                    assert(r[j] == e);
                }
            } else if !(x == mountpoint || a.contains(x)) {
                assert(r[a.len() as int] == e);
            }
        }
        assert forall|e: Seq<char>| r.contains(e) implies acc.contains(e) || entries.contains(e) by {
            let j = choose|j: int| 0 <= j < r.len() && r[j] == e;
            if j == a.len() {
                assert(entries[entries.len() - 1] == e);
            } else {
                assert(a[j] == e);
                assert(a.contains(e));
                if rest.contains(e) {
                    let k = choose|k: int| 0 <= k < rest.len() && rest[k] == e;
                    assert(entries[k] == e);
                }
            }
        }
        if !(x == mountpoint || a.contains(x)) {
            assert forall|i: int, j: int| 0 <= i < j < r.len() implies r[i] != r[j] by {
                if j == a.len() {
                    assert(r[i] == a[i]);
                    assert(!a.contains(x));
                }
            }
            assert(!r.contains(mountpoint)) by {
                if r.contains(mountpoint) {
                    let j = choose|j: int| 0 <= j < r.len() && r[j] == mountpoint;
                    if j < a.len() {
                        assert(a[j] == mountpoint);
                    }
                }
            }
        }
    }
}

/// Records the flag files `entries` found under `mountpoint`.
pub fn add_found_flags(flag_files: &mut Vec<String>, entries: &Vec<String>, mountpoint: &str)
    ensures
        views(final(flag_files)@) == add_flags(views(old(flag_files)@), views(entries@), mountpoint@),
{
    let ghost start = views(flag_files@);
    let mut i: usize = 0;
    while i < entries.len()
        invariant
            0 <= i <= entries@.len(),
            views(flag_files@) == add_flags(start, views(entries@).take(i as int), mountpoint@),
        decreases entries@.len() - i,
    {
        assert(views(entries@).take(i + 1).drop_last() =~= views(entries@).take(i as int));
        assert(views(entries@).take(i + 1).last() == entries@[i as int]@);
        let e = entries[i].clone();
        if !str_eq(e.as_str(), mountpoint) && !string_in(&e, flag_files) {
            let ghost prev = flag_files@;
            flag_files.push(e);
            assert(views(flag_files@) =~= views(prev).push(e@));
        }
        i = i + 1;
    }
    assert(views(entries@).take(entries@.len() as int) =~= views(entries@));
}

/// Whether a mount namespace can be searched through a process of it, by
/// what reading the process's `/proc/<pid>/cmdline` gave: the file could be
/// read and is not empty (kernel threads have an empty command line).
pub fn searchable_through(cmdline: Option<&str>) -> (res: bool)
    ensures
        res == (cmdline is Some && cmdline->0@.len() > 0),
{
    match cmdline {
        None => false,
        Some(c) => c.unicode_len() > 0,
    }
}

/// What the search of a mount namespace for flag files asks of its caller.
#[derive(Clone, Copy, Debug, PartialEq, Eq, Structural)]
pub enum NsSearchAction {
    /// Read `/proc/<pid>/cmdline` of this process and hand back its contents,
    /// or nothing where it cannot be opened.
    ReadCmdline(i32),
    /// Join the mount namespace through this process and tell whether it
    /// worked.
    Join(i32),
    /// Search the namespace's mount points: it has been joined.
    Search,
    /// No process of the namespace could be used.
    GiveUp,
}

/// The choice of the process through which a mount namespace is searched:
/// its processes are tried in order, and the first one whose command line
/// can be read and is not empty, and through which the namespace can be
/// joined, is used.
pub struct NsSearch {
    pub pids: Vec<i32>,
    /// Index of the process being tried.
    pub next: usize,
    /// Whether that process's command line has been found usable.
    pub usable: bool,
    /// Whether the namespace has been joined through it.
    pub joined: bool,
}

impl NsSearch {
    /// The state is consistent.
    pub open spec fn wf(self) -> bool {
        &&& self.next <= self.pids.len()
        &&& self.joined ==> self.usable
        &&& self.usable ==> self.next < self.pids.len()
    }

    /// What the search asks for in this state.
    pub open spec fn spec_action(self) -> NsSearchAction {
        if self.next >= self.pids.len() {
            NsSearchAction::GiveUp
        } else if self.joined {
            NsSearchAction::Search
        } else if self.usable {
            NsSearchAction::Join(self.pids@[self.next as int])
        } else {
            NsSearchAction::ReadCmdline(self.pids@[self.next as int])
        }
    }

    /// The search through the processes `pids` of a mount namespace, trying
    /// the first one.
    pub fn new(pids: Vec<i32>) -> (res: NsSearch)
        ensures
            res.wf(),
            res.pids@ == pids@,
            res.next == 0,
            !res.usable,
            !res.joined,
    {
        NsSearch { pids, next: 0, usable: false, joined: false }
    }

    /// What the search asks for next.
    pub fn action(&self) -> (res: NsSearchAction)
        requires
            self.wf(),
        ensures
            res == self.spec_action(),
    {
        if self.next >= self.pids.len() {
            NsSearchAction::GiveUp
        } else if self.joined {
            NsSearchAction::Search
        } else if self.usable {
            NsSearchAction::Join(self.pids[self.next])
        } else {
            NsSearchAction::ReadCmdline(self.pids[self.next])
        }
    }

    /// Takes in what reading the command line of the process tried gave: it
    /// is kept where the namespace can be searched through it, else the next
    /// process is tried.
    pub fn cmdline_read(&mut self, cmdline: Option<&str>)
        requires
            old(self).wf(),
            old(self).spec_action() is ReadCmdline,
        ensures
            final(self).wf(),
            final(self).pids@ == old(self).pids@,
            !final(self).joined,
            if cmdline is Some && cmdline->0@.len() > 0 {
                final(self).next == old(self).next && final(self).usable
            } else {
                final(self).next == old(self).next + 1 && !final(self).usable
            },
    {
        if searchable_through(cmdline) {
            self.usable = true;
        } else {
            self.next = self.next + 1;
        }
    }

    /// Takes in whether joining the namespace through the process tried
    /// worked: then the namespace is searched, else the next process is
    /// tried.
    pub fn join_result(&mut self, joined: bool)
        requires
            old(self).wf(),
            old(self).spec_action() is Join,
        ensures
            final(self).wf(),
            final(self).pids@ == old(self).pids@,
            joined ==> final(self).next == old(self).next && final(self).usable && final(self).joined,
            !joined ==> final(self).next == old(self).next + 1 && !final(self).usable && !final(self).joined,
    {
        if joined {
            self.joined = true;
        } else {
            self.next = self.next + 1;
            self.usable = false;
        }
    }
}

/// Whether the search for flag files keeps the entry at `path`: directories
/// are entered; otherwise entries under one of `skips`, entries that are
/// neither regular files nor directories, and names that do not begin with
/// the flag base name are left out. `kind` is `None` when the entry's
/// metadata could not be read, else whether it is a directory and whether it
/// is a regular file.
pub fn flag_search_keeps(path: &str, kind: Option<(bool, bool)>, file_name: Option<&str>, skips: &Vec<String>) -> (res: bool)
    ensures
        res == match kind {
            None => false,
            Some((is_dir, is_file)) => is_dir || (
                !(exists|k: int| 0 <= k < skips@.len() && crate::text::path_has_prefix(path@, (#[trigger] skips@[k])@))
                && is_file
                && match file_name {
                    None => false,
                    Some(n) => flag_base_name().is_prefix_of(n@),
                }),
        },
{
    match kind {
        None => false,
        Some((is_dir, is_file)) => {
            if is_dir {
                return true;
            }
            let mut i: usize = 0;
            while i < skips.len()
                invariant
                    0 <= i <= skips@.len(),
                    !is_dir,
                    kind == Some((is_dir, is_file)),
                    forall|k: int| 0 <= k < i ==> !crate::text::path_has_prefix(path@, (#[trigger] skips@[k])@),
                decreases skips@.len() - i,
            {
                let hit = crate::text::path_starts_with(path, skips[i].as_str());
                if hit {
                    assert(crate::text::path_has_prefix(path@, skips@[i as int]@));
                    return false;
                }
                i = i + 1;
            }
            if !(is_file || is_dir) {
                return false;
            }
            match file_name {
                None => false,
                Some(n) => starts_with_str(n, "xyz_checkc_flag"),
            }
        }
    }
}

} // verus!
