//! Where the node agent keeps its local state: one JSON file per artifact
//! under its state directory.
use vstd::prelude::*;

verus! {

broadcast use vstd::string::group_string_axioms;

/// `name` under directory `dir`, as a relative path is joined to a
/// directory: with a `/` between them unless `dir` is empty or already
/// ends with one.
pub open spec fn join_path(dir: Seq<char>, name: Seq<char>) -> Seq<char> {
    if dir.len() == 0 || dir.last() == '/' {
        dir + name
    } else {
        dir + "/"@ + name
    }
}

fn join_path_exec(dir: &str, name: &str) -> (r: String)
    ensures
        r@ == join_path(dir@, name@),
{
    let mut r = dir.to_string();
    let n = dir.unicode_len();
    if n > 0 && dir.get_char(n - 1) != '/' {
        r.append("/");
    }
    r.append(name);
    proof {
        reveal_strlit("/");
    }
    assert(r@ =~= join_path(dir@, name@));
    r
}

/// The agent's local state directory and the files in it.
pub struct LocalPlatformStateStore {
    pub root: String,
}

impl LocalPlatformStateStore {
    /// The store under `base_state_dir`, in its `platform-agent` directory.
    pub fn new(base_state_dir: &str) -> (r: Self)
        ensures
            r.root@ == join_path(base_state_dir@, "platform-agent"@),
    {
        LocalPlatformStateStore { root: join_path_exec(base_state_dir, "platform-agent") }
    }

    /// The cached desired state.
    pub fn desired_state_path(&self) -> (r: String)
        ensures
            r@ == join_path(self.root@, "desired-state-cache.json"@),
    {
        join_path_exec(self.root.as_str(), "desired-state-cache.json")
    }

    /// The compiled node state.
    pub fn compiled_state_path(&self) -> (r: String)
        ensures
            r@ == join_path(self.root@, "compiled-node-state.json"@),
    {
        join_path_exec(self.root.as_str(), "compiled-node-state.json")
    }

    /// The reconcile plan.
    pub fn reconcile_plan_path(&self) -> (r: String)
        ensures
            r@ == join_path(self.root@, "reconcile-plan.json"@),
    {
        join_path_exec(self.root.as_str(), "reconcile-plan.json")
    }

    /// The runtime plan.
    pub fn runtime_plan_path(&self) -> (r: String)
        ensures
            r@ == join_path(self.root@, "runtime-plan.json"@),
    {
        join_path_exec(self.root.as_str(), "runtime-plan.json")
    }

    /// The runtime inventory.
    pub fn runtime_inventory_path(&self) -> (r: String)
        ensures
            r@ == join_path(self.root@, "runtime-inventory.json"@),
    {
        join_path_exec(self.root.as_str(), "runtime-inventory.json")
    }

    /// The runtime inventory diff.
    pub fn runtime_inventory_diff_path(&self) -> (r: String)
        ensures
            r@ == join_path(self.root@, "runtime-inventory-diff.json"@),
    {
        join_path_exec(self.root.as_str(), "runtime-inventory-diff.json")
    }

    /// The runtime intent.
    pub fn runtime_intent_path(&self) -> (r: String)
        ensures
            r@ == join_path(self.root@, "runtime-intent.json"@),
    {
        join_path_exec(self.root.as_str(), "runtime-intent.json")
    }

    /// The runtime execution summary.
    pub fn runtime_execution_summary_path(&self) -> (r: String)
        ensures
            r@ == join_path(self.root@, "runtime-execution-summary.json"@),
    {
        join_path_exec(self.root.as_str(), "runtime-execution-summary.json")
    }

    /// The socket selection plan.
    pub fn socket_selection_plan_path(&self) -> (r: String)
        ensures
            r@ == join_path(self.root@, "socket-selection-plan.json"@),
    {
        join_path_exec(self.root.as_str(), "socket-selection-plan.json")
    }
}

} // verus!
