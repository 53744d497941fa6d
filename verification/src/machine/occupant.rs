//! Who else works in a checkout.

use vstd::prelude::*;
use vstd::string::*;

use crate::task;
use crate::task::AgentInfo;
use crate::task::Task;
use crate::text;

verus! {

/// A workspace as herdr lists it, and the checkout it shows, if it shows one.
#[derive(Debug)]
pub struct WorkspaceInfo {
    pub workspace_id: String,
    pub checkout_path: Option<String>,
}

/// The first of the workspaces with the id, or their number.
pub open spec fn workspace_at(workspaces: Seq<WorkspaceInfo>, id: Seq<char>) -> int
    decreases workspaces.len(),
{
    if workspaces.len() == 0 {
        0
    } else if workspace_at(workspaces.drop_last(), id) < workspaces.len() - 1 {
        workspace_at(workspaces.drop_last(), id)
    } else if workspaces.last().workspace_id@ == id {
        workspaces.len() - 1
    } else {
        workspaces.len() as int
    }
}

/// The path of a checkout: the recorded one, or with none recorded, the one
/// herdr reports for the workspace.
pub open spec fn path_of(
    checkout: Option<Seq<char>>,
    workspace: Option<Seq<char>>,
    workspaces: Seq<WorkspaceInfo>,
) -> Option<Seq<char>> {
    match checkout {
        Some(p) => Some(p),
        None => match workspace {
            Some(id) => if workspace_at(workspaces, id) < workspaces.len() {
                text::opt_text(workspaces[workspace_at(workspaces, id)].checkout_path)
            } else {
                None
            },
            None => None,
        },
    }
}

proof fn lemma_workspace_at(workspaces: Seq<WorkspaceInfo>, id: Seq<char>)
    ensures
        0 <= workspace_at(workspaces, id) <= workspaces.len(),
        workspace_at(workspaces, id) < workspaces.len() ==> workspaces[workspace_at(
            workspaces,
            id,
        )].workspace_id@ == id,
        forall|k: int|
            0 <= k < workspace_at(workspaces, id) ==> (#[trigger] workspaces[k]).workspace_id@ != id,
    decreases workspaces.len(),
{
    if workspaces.len() > 0 {
        lemma_workspace_at(workspaces.drop_last(), id);
        assert forall|k: int| 0 <= k < workspace_at(workspaces, id) implies (
        #[trigger] workspaces[k]).workspace_id@ != id by {
            if k < workspaces.len() - 1 {
                assert(workspaces.drop_last()[k] == workspaces[k]);
            }
        }
    }
}

/// The path of a checkout: the recorded one, or with none recorded, the one
/// herdr reports for the workspace.
pub fn checkout_path(
    checkout: Option<&str>,
    workspace: Option<&str>,
    workspaces: &Vec<WorkspaceInfo>,
) -> (r: Option<String>)
    ensures
        text::opt_text(r) == path_of(text::opt_str(checkout), text::opt_str(workspace), workspaces@),
{
    match checkout {
        Some(p) => Some(p.to_owned()),
        None => match workspace {
            Some(id) => {
                let mut i: usize = 0;
                while i < workspaces.len() && !text::same_text(
                    workspaces[i].workspace_id.as_str(),
                    id,
                )
                    invariant
                        i <= workspaces.len(),
                        forall|k: int|
                            0 <= k < i ==> (#[trigger] workspaces@[k]).workspace_id@ != id@,
                    decreases workspaces.len() - i,
                {
                    i = i + 1;
                }
                proof {
                    lemma_workspace_at(workspaces@, id@);
                }
                if i < workspaces.len() {
                    workspaces[i].checkout_path.clone()
                } else {
                    None
                }
            },
            None => None,
        },
    }
}

/// What is known of a checkout: the workspace of the task's own on it, the
/// workspaces and which of them show it, the other tasks and which of them work
/// in it.
pub struct Around<'a> {
    pub task_id: i64,
    pub pane: &'a str,
    pub workspace: Option<&'a str>,
    pub workspaces: &'a Vec<WorkspaceInfo>,
    /// For each workspace, whether it shows the checkout.
    pub shows: &'a Vec<bool>,
    pub others: &'a Vec<Task>,
    /// For each of the other tasks, whether its checkout or its repository is
    /// the checkout.
    pub here: &'a Vec<bool>,
}

impl<'a> Around<'a> {
    /// There is one answer for each workspace and each task.
    pub open spec fn whole(self) -> bool {
        self.shows@.len() == self.workspaces@.len() && self.here@.len() == self.others@.len()
    }

    /// The workspace is the task's own, or shows the checkout.
    pub open spec fn shown_in(self, id: Seq<char>) -> bool {
        text::opt_str(self.workspace) == Some(id) || exists|i: int|
            0 <= i < self.workspaces@.len() && #[trigger] self.shows@[i]
                && self.workspaces@[i].workspace_id@ == id
    }

    /// The name is that of the agent of another task that works here.
    pub open spec fn works_here(self, name: Seq<char>) -> bool {
        exists|i: int|
            0 <= i < self.others@.len() && #[trigger] self.here@[i] && self.others@[i].id
                != self.task_id && agent_name_of(self.others@[i]) == name
    }

    /// The agent, not the task's own, is at work in the checkout.
    pub open spec fn occupied_by(self, a: AgentInfo) -> bool {
        a.pane_id@ != self.pane@ && (self.shown_in(a.workspace_id@) || (a.name matches Some(n)
            && self.works_here(n@)))
    }

    fn is_shown_in(&self, id: &str) -> (b: bool)
        requires
            self.whole(),
        ensures
            b == self.shown_in(id@),
    {
        if let Some(w) = self.workspace {
            if text::same_text(w, id) {
                return true;
            }
        }
        let mut i: usize = 0;
        while i < self.workspaces.len()
            invariant
                i <= self.workspaces@.len(),
                self.whole(),
                forall|k: int|
                    0 <= k < i ==> !(#[trigger] self.shows@[k] && self.workspaces@[k].workspace_id@
                        == id@),
            decreases self.workspaces@.len() - i,
        {
            if self.shows[i] && text::same_text(self.workspaces[i].workspace_id.as_str(), id) {
                assert(self.shows@[i as int]);
                return true;
            }
            i = i + 1;
        }
        false
    }

    fn is_at_work_here(&self, name: &str) -> (b: bool)
        requires
            self.whole(),
        ensures
            b == self.works_here(name@),
    {
        let mut i: usize = 0;
        while i < self.others.len()
            invariant
                i <= self.others@.len(),
                self.whole(),
                forall|k: int|
                    0 <= k < i ==> !(#[trigger] self.here@[k] && self.others@[k].id != self.task_id
                        && agent_name_of(self.others@[k]) == name@),
            decreases self.others@.len() - i,
        {
            if self.here[i] && self.others[i].id != self.task_id && is_agent_of(
                &self.others[i],
                name,
            ) {
                assert(self.here@[i as int]);
                return true;
            }
            i = i + 1;
        }
        false
    }

    fn is_occupied_by(&self, a: &AgentInfo) -> (b: bool)
        requires
            self.whole(),
        ensures
            b == self.occupied_by(*a),
    {
        if text::same_text(a.pane_id.as_str(), self.pane) {
            return false;
        }
        if self.is_shown_in(a.workspace_id.as_str()) {
            return true;
        }
        match &a.name {
            Some(n) => self.is_at_work_here(n.as_str()),
            None => false,
        }
    }

    /// Another agent at work in the checkout a task would remove, named (or its
    /// pane, when it has no name): one in the task's own workspace on the
    /// checkout or in any workspace showing it, or the agent of another task on
    /// the machine that works in it, wherever its pane is.
    pub fn checkout_occupant(&self, agents: &Vec<AgentInfo>) -> (r: Option<String>)
        requires
            self.whole(),
        ensures
            match r {
                None => forall|i: int|
                    0 <= i < agents@.len() ==> !self.occupied_by(#[trigger] agents@[i]),
                Some(who) => exists|i: int|
                    {
                        &&& 0 <= i < agents@.len()
                        &&& self.occupied_by(#[trigger] agents@[i])
                        &&& who@ == shown_name(agents@[i])
                        &&& forall|k: int| 0 <= k < i ==> !self.occupied_by(#[trigger] agents@[k])
                    },
            },
    {
        let mut i: usize = 0;
        while i < agents.len()
            invariant
                i <= agents@.len(),
                self.whole(),
                forall|k: int| 0 <= k < i ==> !self.occupied_by(#[trigger] agents@[k]),
            decreases agents@.len() - i,
        {
            if self.is_occupied_by(&agents[i]) {
                let who = match &agents[i].name {
                    Some(n) => n.clone(),
                    None => agents[i].pane_id.clone(),
                };
                assert(self.occupied_by(agents@[i as int]));
                return Some(who);
            }
            i = i + 1;
        }
        None
    }
}

/// The name a task's agent goes by.
pub open spec fn agent_name_of(t: Task) -> Seq<char> {
    match t.agent_name {
        Some(n) => n@,
        None => task::task_name(t.id as int),
    }
}

/// How an agent is named: by its name, or by its pane.
pub open spec fn shown_name(a: AgentInfo) -> Seq<char> {
    match a.name {
        Some(n) => n@,
        None => a.pane_id@,
    }
}

fn is_agent_of(t: &Task, name: &str) -> (b: bool)
    ensures
        b == (agent_name_of(*t) == name@),
{
    match &t.agent_name {
        Some(n) => text::same_text(n.as_str(), name),
        None => {
            let own = t.display_id();
            text::same_text(own.as_str(), name)
        },
    }
}

/// An agent in another pane keeps a checkout if it sits in the task's own workspace or in
/// one that shows the checkout, or if it is the agent of another task that works there.
/// The task's own pane never does.
pub proof fn who_keeps_a_checkout<'a>(
    around: Around<'a>,
    agents: &Vec<AgentInfo>,
    r: Option<String>,
    i: int,
)
    requires
        around.whole(),
        call_ensures(Around::checkout_occupant, (&around, agents), r),
        0 <= i < agents@.len(),
    ensures
        agents@[i].pane_id@ != around.pane@ && around.workspace is Some
            && around.workspace->0@ == agents@[i].workspace_id@ ==> r is Some,
        forall|w: int|
            agents@[i].pane_id@ != around.pane@ && 0 <= w < around.workspaces@.len()
                && #[trigger] around.shows@[w] && around.workspaces@[w].workspace_id@
                == agents@[i].workspace_id@ ==> r is Some,
        forall|o: int|
            agents@[i].pane_id@ != around.pane@ && 0 <= o < around.others@.len()
                && #[trigger] around.here@[o] && around.others@[o].id != around.task_id
                && agents@[i].name is Some && around.others@[o].agent_name is Some
                && around.others@[o].agent_name->0@ == agents@[i].name->0@ ==> r is Some,
        (forall|k: int| 0 <= k < agents@.len() ==> (#[trigger] agents@[k]).pane_id@ == around.pane@)
            ==> r is None,
        r matches Some(who) ==> exists|k: int|
            0 <= k < agents@.len() && (#[trigger] agents@[k]).pane_id@ != around.pane@ && who@ == (
            if agents@[k].name is Some {
                agents@[k].name->0@
            } else {
                agents@[k].pane_id@
            }),
{
    if r is None {
        assert(!around.occupied_by(agents@[i]));
    }
    if agents@[i].pane_id@ != around.pane@ {
        assert forall|w: int|
            0 <= w < around.workspaces@.len() && #[trigger] around.shows@[w]
                && around.workspaces@[w].workspace_id@ == agents@[i].workspace_id@ implies r is Some by {
            assert(around.shown_in(agents@[i].workspace_id@));
        }
        assert forall|o: int|
            0 <= o < around.others@.len() && #[trigger] around.here@[o] && around.others@[o].id
                != around.task_id && agents@[i].name is Some && around.others@[o].agent_name is Some
                && around.others@[o].agent_name->0@ == agents@[i].name->0@ implies r is Some by {
            assert(around.works_here(agents@[i].name->0@));
        }
    }
}

/// The path of a checkout is the recorded one; without one, that of the first workspace
/// of the id.
pub proof fn a_recorded_path_counts_first(
    checkout: Option<&str>,
    workspace: &str,
    workspaces: &Vec<WorkspaceInfo>,
    i: int,
    r: Option<String>,
)
    requires
        call_ensures(checkout_path, (checkout, Some(workspace), workspaces), r),
        0 <= i < workspaces@.len(),
        workspaces@[i].workspace_id@ == workspace@,
        forall|k: int| 0 <= k < i ==> (#[trigger] workspaces@[k]).workspace_id@ != workspace@,
    ensures
        checkout matches Some(p) ==> (r matches Some(q) && q@ == p@),
        checkout is None ==> text::opt_text(r) == text::opt_text(workspaces@[i].checkout_path),
{
    lemma_workspace_at(workspaces@, workspace@);
}

} // verus!
