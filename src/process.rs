use vstd::prelude::*;

verus! {

/// Exit status that a process reports while it is still running.
pub const STILL_ACTIVE: u32 = 259;

/// Pause between two attempts to find and open the target process.
pub const RETRY_DELAY_MS: u64 = 100;

/// The units before the first NUL of `s`: `s` itself when it holds none.
pub open spec fn before_nul(s: Seq<u16>) -> Seq<u16> {
    if exists|i: int| 0 <= i < s.len() && s[i] == 0 {
        s.subrange(0, choose|i: int| 0 <= i < s.len() && s[i] == 0 && forall|k: int| 0 <= k < i ==> s[k] != 0)
    } else {
        s
    }
}

/// ASCII upper-case letters folded to lower case; other units unchanged.
pub open spec fn fold_ascii(c: u16) -> u16 {
    if 65 <= c <= 90 { (c + 32) as u16 } else { c }
}

/// Equality of two UTF-16 names, ignoring ASCII case.
pub open spec fn eq_ignore_ascii_case(a: Seq<u16>, b: Seq<u16>) -> bool {
    &&& a.len() == b.len()
    &&& forall|i: int| 0 <= i < a.len() ==> fold_ascii(#[trigger] a[i]) == fold_ascii(b[i])
}

/// One row of the system's process table.
pub struct ProcessEntry {
    pub pid: u32,
    /// Executable name as the table holds it: UTF-16, padded with NULs.
    pub exe_name: Vec<u16>,
}

/// One row of a process's loaded-module table.
pub struct ModuleEntry {
    /// Module name as the table holds it: UTF-16, padded with NULs.
    pub name: Vec<u16>,
    pub base_address: usize,
    pub size: usize,
}

/// Where a module is loaded in a process.
#[derive(Clone, Copy, Debug, PartialEq, Eq)]
pub struct ModuleInfo {
    pub base_address: usize,
    pub size: usize,
}

/// Whether the NUL-padded `raw` names `target`, ignoring ASCII case.
pub open spec fn names(raw: Seq<u16>, target: Seq<u16>) -> bool {
    eq_ignore_ascii_case(before_nul(raw), target)
}

proof fn lemma_before_nul(s: Seq<u16>, i: int)
    requires
        0 <= i <= s.len(),
        forall|k: int| 0 <= k < i ==> s[k] != 0,
        i < s.len() ==> s[i] == 0,
    ensures
        before_nul(s) == s.subrange(0, i),
{
    if i < s.len() {
        let c = choose|c: int| 0 <= c < s.len() && s[c] == 0 && forall|k: int| 0 <= k < c ==> s[k] != 0;
        if c < i {
            assert(s[c] != 0);
        } else if c > i {
            assert(s[i] != 0);
        }
    } else {
        assert(s.subrange(0, i) == s);
    }
}

fn fold_unit(c: u16) -> (r: u16)
    ensures
        r == fold_ascii(c),
{
    if 65 <= c && c <= 90 { c + 32 } else { c }
}

/// Whether the NUL-padded name `raw` equals `target`, ignoring ASCII case.
pub fn name_matches(raw: &[u16], target: &[u16]) -> (r: bool)
    ensures
        r == names(raw@, target@),
{
    let mut len: usize = 0;
    while len < raw.len() && raw[len] != 0
        invariant
            len <= raw@.len(),
            forall|k: int| 0 <= k < len ==> raw@[k] != 0,
        decreases raw@.len() - len,
    {
        len += 1;
    }
    proof { lemma_before_nul(raw@, len as int); }
    if len != target.len() {
        return false;
    }
    let mut i: usize = 0;
    while i < len
        invariant
            len == target@.len(),
            len <= raw@.len(),
            before_nul(raw@) == raw@.subrange(0, len as int),
            i <= len,
            forall|k: int| 0 <= k < i ==> fold_ascii(raw@[k]) == fold_ascii(target@[k]),
        decreases len - i,
    {
        if fold_unit(raw[i]) != fold_unit(target[i]) {
            assert(fold_ascii(before_nul(raw@)[i as int]) != fold_ascii(target@[i as int]));
            return false;
        }
        i += 1;
    }
    assert(eq_ignore_ascii_case(before_nul(raw@), target@));
    true
}

/// The id of the first process in `entries` whose executable name is
/// `target`, ignoring ASCII case.
pub fn find_process(entries: &[ProcessEntry], target: &[u16]) -> (r: Option<u32>)
    ensures
        r is None <==> forall|k: int| 0 <= k < entries@.len() ==> !names(#[trigger] entries@[k].exe_name@, target@),
        r matches Some(pid) ==> exists|k: int|
            0 <= k < entries@.len() && names(entries@[k].exe_name@, target@) && entries@[k].pid == pid
                && forall|j: int| 0 <= j < k ==> !names(#[trigger] entries@[j].exe_name@, target@),
{
    let mut i: usize = 0;
    while i < entries.len()
        invariant
            i <= entries@.len(),
            forall|k: int| 0 <= k < i ==> !names(#[trigger] entries@[k].exe_name@, target@),
        decreases entries@.len() - i,
    {
        if name_matches(entries[i].exe_name.as_slice(), target) {
            return Some(entries[i].pid);
        }
        i += 1;
    }
    None
}

/// Where the first module in `entries` named `module_name`, ignoring ASCII
/// case, is loaded.
pub fn find_module(entries: &[ModuleEntry], module_name: &[u16]) -> (r: Option<ModuleInfo>)
    ensures
        r is None <==> forall|k: int| 0 <= k < entries@.len() ==> !names(#[trigger] entries@[k].name@, module_name@),
        r matches Some(m) ==> exists|k: int|
            0 <= k < entries@.len() && names(entries@[k].name@, module_name@)
                && m == (ModuleInfo { base_address: entries@[k].base_address, size: entries@[k].size })
                && forall|j: int| 0 <= j < k ==> !names(#[trigger] entries@[j].name@, module_name@),
{
    let mut i: usize = 0;
    while i < entries.len()
        invariant
            i <= entries@.len(),
            forall|k: int| 0 <= k < i ==> !names(#[trigger] entries@[k].name@, module_name@),
        decreases entries@.len() - i,
    {
        if name_matches(entries[i].name.as_slice(), module_name) {
            return Some(ModuleInfo { base_address: entries[i].base_address, size: entries[i].size });
        }
        i += 1;
    }
    None
}

/// Whether a process is alive, given the outcome of one exit-status query:
/// only a successful query that reports the process as still running counts.
/// A failed query counts as dead.
pub fn alive_from_status(query_ok: bool, exit_code: u32) -> (r: bool)
    ensures
        r == (query_ok && exit_code == STILL_ACTIVE),
        !query_ok ==> !r,
{
    query_ok && exit_code == STILL_ACTIVE
}

/// What the wait for a process does after one attempt.
#[derive(Clone, Copy, Debug, PartialEq, Eq)]
pub enum WaitAction {
    /// The process was found and opened.
    Done,
    /// Pause for the given milliseconds, then try again.
    Retry(u64),
    /// The attempt limit is spent.
    GiveUp,
}

/// The decision after attempt number `attempts` (counting from one) to find
/// and open a process, which `opened` tells the outcome of. With no `limit`
/// the wait goes on until an attempt succeeds.
pub fn wait_step(attempts: u64, limit: Option<u64>, opened: bool) -> (r: WaitAction)
    ensures
        opened ==> r == WaitAction::Done,
        !opened ==> (r == WaitAction::GiveUp <==> (limit matches Some(n) && attempts >= n)),
        !opened ==> (r != WaitAction::GiveUp ==> r == WaitAction::Retry(RETRY_DELAY_MS)),
{
    if opened {
        return WaitAction::Done;
    }
    match limit {
        Some(n) => {
            if attempts >= n {
                return WaitAction::GiveUp;
            }
        },
        None => {},
    }
    WaitAction::Retry(RETRY_DELAY_MS)
}

} // verus!
