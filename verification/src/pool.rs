//! The process pool's bookkeeping: the set of background process
//! identifiers believed to be running, the last foreground exit code, and
//! the foreground-only switch.
//!
//! The pool never touches the operating system itself. The caller spawns,
//! waits and polls, and reports each outcome back:
//! - a background spawn is registered with `register_background`;
//! - a foreground wait's exit code is recorded with `record_foreground_exit`
//!   (background completions never touch the last exit code);
//! - the reaper reports each child it observed to have exited with `reap`,
//!   which removes it from the set, exactly once, never to be re-inserted.

use crate::launcher::{build_plan, plan_spec, LaunchPlan};
use vstd::prelude::*;

verus! {

/// The pool's state in mathematical form: the background identifiers as an
/// unordered set, the last foreground exit code, and the mode switch.
#[verifier::ext_equal]
pub struct PoolView {
    pub background: Set<u64>,
    pub last_exit_code: Option<i32>,
    pub foreground_only: bool,
}

/// Tracks background children by process identifier, the most recent
/// foreground exit code, and whether background requests are downgraded.
pub struct ProcessPool {
    background: Vec<u64>,
    last_code: Option<i32>,
    fg_only: bool,
}

impl View for ProcessPool {
    type V = PoolView;

    closed spec fn view(&self) -> PoolView {
        PoolView {
            background: self.background@.to_set(),
            last_exit_code: self.last_code,
            foreground_only: self.fg_only,
        }
    }
}

impl ProcessPool {
    /// A process identifier is tracked at most once.
    pub closed spec fn wf(&self) -> bool {
        self.background@.no_duplicates()
    }

    /// An empty pool: nothing running, no exit code yet, background allowed.
    pub fn new() -> (p: ProcessPool)
        ensures
            p.wf(),
            p@.background == Set::<u64>::empty(),
            p@.last_exit_code is None,
            !p@.foreground_only,
    {
        let p = ProcessPool { background: Vec::new(), last_code: None, fg_only: false };
        proof {
            assert(p.background@.to_set() =~= Set::<u64>::empty());
        }
        p
    }

    /// The launch plan for one command under the pool's current mode: the
    /// tokens resolved as `plan_spec` says, the background request
    /// downgraded when the pool is foreground-only. The caller spawns from
    /// the plan and reports the outcome back.
    pub fn add(&self, program: &str, args: Vec<String>, shell_pid: u64) -> (plan: LaunchPlan)
        ensures
            plan@ == plan_spec(program@, args.deep_view(), shell_pid as int, self@.foreground_only),
    {
        build_plan(program, args, shell_pid, self.fg_only)
    }

    /// Tracks a freshly spawned background child. Process identifiers of
    /// running children are distinct, so `pid` is new to the set.
    pub fn register_background(&mut self, pid: u64)
        requires
            old(self).wf(),
            !old(self)@.background.contains(pid),
        ensures
            final(self).wf(),
            final(self)@.background == old(self)@.background.insert(pid),
            final(self)@.last_exit_code == old(self)@.last_exit_code,
            final(self)@.foreground_only == old(self)@.foreground_only,
    {
        let ghost pre = self.background@;
        self.background.push(pid);
        proof {
            assert forall|j: int| 0 <= j < pre.len() implies pre[j] != pid by {
                assert(pre.to_set().contains(pre[j]));
            }
            assert forall|x: u64|
                self.background@.to_set().contains(x) == pre.to_set().insert(pid).contains(x) by {
                if self.background@.contains(x) {
                    let w = choose|w: int|
                        0 <= w < self.background@.len() && self.background@[w] == x;
                    if w < pre.len() {
                        assert(pre[w] == x);
                    }
                }
                if pre.contains(x) {
                    let w = choose|w: int| 0 <= w < pre.len() && pre[w] == x;
                    assert(self.background@[w] == x);
                }
                if x == pid {
                    assert(self.background@[pre.len() as int] == x);
                }
            }
            assert(self.background@.to_set() =~= pre.to_set().insert(pid));
        }
    }

    /// Records the exit code of the foreground wait that just completed.
    /// Only foreground completions reach this; the background set is
    /// untouched.
    pub fn record_foreground_exit(&mut self, code: Option<i32>)
        requires
            old(self).wf(),
        ensures
            final(self).wf(),
            final(self)@.background == old(self)@.background,
            final(self)@.last_exit_code == code,
            final(self)@.foreground_only == old(self)@.foreground_only,
    {
        self.last_code = code;
    }

    /// Removes one background child the reaper observed to have exited. A
    /// pid that is not tracked leaves the pool unchanged; the last exit
    /// code is never touched by reaping.
    pub fn reap(&mut self, pid: u64)
        requires
            old(self).wf(),
        ensures
            final(self).wf(),
            final(self)@.background == old(self)@.background.remove(pid),
            final(self)@.last_exit_code == old(self)@.last_exit_code,
            final(self)@.foreground_only == old(self)@.foreground_only,
    {
        let ghost pre = self.background@;
        let mut k: usize = 0;
        while k < self.background.len()
            invariant
                k <= self.background@.len(),
                pre == old(self).background@,
                self.background@ == pre,
                self.last_code == old(self).last_code,
                self.fg_only == old(self).fg_only,
                pre.no_duplicates(),
                forall|j: int| 0 <= j < k ==> pre[j] != pid,
            decreases self.background@.len() - k,
        {
            if self.background[k] == pid {
                self.background.remove(k);
                proof {
                    pre.remove_ensures(k as int);
                    assert forall|x: u64|
                        self.background@.to_set().contains(x) == pre.to_set().remove(pid).contains(
                            x,
                        ) by {
                        if self.background@.contains(x) {
                            let w = choose|w: int|
                                0 <= w < self.background@.len() && self.background@[w] == x;
                            assert(x != pid);
                            if w < k {
                                assert(pre[w] == x);
                            } else {
                                assert(pre[w + 1] == x);
                            }
                        }
                        if pre.contains(x) && x != pid {
                            let w = choose|w: int| 0 <= w < pre.len() && pre[w] == x;
                            if w < k {
                                assert(self.background@[w] == x);
                            } else {
                                assert(w != k);
                                assert(self.background@[w - 1] == x);
                            }
                        }
                    }
                    assert(self.background@.to_set() =~= pre.to_set().remove(pid));
                    assert forall|a: int, b: int|
                        0 <= a < self.background@.len() && 0 <= b < self.background@.len() && a
                            != b implies self.background@[a] != self.background@[b] by {
                        let pa: int = if a < k { a } else { a + 1 };
                        let pb: int = if b < k { b } else { b + 1 };
                        assert(self.background@[a] == pre[pa]);
                        assert(self.background@[b] == pre[pb]);
                    }
                }
                return ;
            }
            k = k + 1;
        }
        proof {
            assert(!pre.contains(pid));
            assert(self.background@.to_set() =~= pre.to_set().remove(pid));
        }
    }

    /// One reaper pass: removes every background child the caller observed
    /// to have exited, and nothing else. The last exit code is reserved for
    /// foreground completions and stays untouched.
    pub fn reap_exited(&mut self, exited: &Vec<u64>)
        requires
            old(self).wf(),
        ensures
            final(self).wf(),
            final(self)@.background == old(self)@.background.difference(exited@.to_set()),
            final(self)@.last_exit_code == old(self)@.last_exit_code,
            final(self)@.foreground_only == old(self)@.foreground_only,
    {
        proof {
            assert(old(self)@.background.difference(exited@.take(0).to_set())
                =~= old(self)@.background);
        }
        let mut k: usize = 0;
        while k < exited.len()
            invariant
                k <= exited@.len(),
                self.wf(),
                self@.background == old(self)@.background.difference(
                    exited@.take(k as int).to_set(),
                ),
                self@.last_exit_code == old(self)@.last_exit_code,
                self@.foreground_only == old(self)@.foreground_only,
            decreases exited@.len() - k,
        {
            let pid = exited[k];
            self.reap(pid);
            proof {
                assert forall|x: u64|
                    exited@.take(k as int + 1).contains(x) == (exited@.take(k as int).contains(x)
                        || x == pid) by {
                    if exited@.take(k as int + 1).contains(x) {
                        let w = choose|w: int|
                            0 <= w < k as int + 1 && #[trigger] exited@.take(k as int + 1)[w]
                                == x;
                        if w < k as int {
                            assert(exited@.take(k as int)[w] == x);
                        }
                    }
                    if exited@.take(k as int).contains(x) {
                        let w = choose|w: int|
                            0 <= w < k as int && #[trigger] exited@.take(k as int)[w] == x;
                        assert(exited@.take(k as int + 1)[w] == x);
                    }
                    if x == pid {
                        assert(exited@.take(k as int + 1)[k as int] == x);
                    }
                }
                assert(self@.background =~= old(self)@.background.difference(
                    exited@.take(k as int + 1).to_set(),
                ));
            }
            k = k + 1;
        }
        proof {
            assert(exited@.take(exited@.len() as int) =~= exited@);
        }
    }

    /// Whether `pid` is currently tracked as a background child. A caller
    /// about to register a fresh child checks here first: a running child's
    /// identifier is never already tracked.
    pub fn is_tracked(&self, pid: u64) -> (r: bool)
        ensures
            r == self@.background.contains(pid),
    {
        let mut k: usize = 0;
        while k < self.background.len()
            invariant
                k <= self.background@.len(),
                forall|j: int| 0 <= j < k ==> self.background@[j] != pid,
            decreases self.background@.len() - k,
        {
            if self.background[k] == pid {
                return true;
            }
            k = k + 1;
        }
        proof {
            assert(!self.background@.contains(pid));
        }
        false
    }

    /// How many background children are tracked right now.
    pub fn len(&self) -> (n: usize)
        requires
            self.wf(),
        ensures
            n == self@.background.len(),
    {
        proof {
            self.background@.unique_seq_to_set();
        }
        self.background.len()
    }

    /// The most recently recorded foreground exit code, or none if no
    /// foreground command has completed yet.
    pub fn last_exit_code(&self) -> (code: Option<i32>)
        ensures
            code == self@.last_exit_code,
    {
        self.last_code
    }

    /// Whether background requests are currently downgraded to foreground.
    pub fn foreground_only(&self) -> (b: bool)
        ensures
            b == self@.foreground_only,
    {
        self.fg_only
    }

    /// Enters foreground-only mode: from here on every spawn runs
    /// synchronously, whatever its trailing `&` asked for.
    pub fn set_foreground(&mut self)
        requires
            old(self).wf(),
        ensures
            final(self).wf(),
            final(self)@.background == old(self)@.background,
            final(self)@.last_exit_code == old(self)@.last_exit_code,
            final(self)@.foreground_only,
    {
        self.fg_only = true;
    }

    /// Leaves foreground-only mode: background requests are honoured again.
    pub fn set_background(&mut self)
        requires
            old(self).wf(),
        ensures
            final(self).wf(),
            final(self)@.background == old(self)@.background,
            final(self)@.last_exit_code == old(self)@.last_exit_code,
            !final(self)@.foreground_only,
    {
        self.fg_only = false;
    }
}

/// The pool's size is a function of its state alone: two reads with no
/// intervening registration or reaping agree.
pub proof fn lemma_pool_size_idempotent(p: &ProcessPool, first: usize, second: usize)
    requires
        first == p@.background.len(),
        second == p@.background.len(),
    ensures
        first == second,
{
}

} // verus!
