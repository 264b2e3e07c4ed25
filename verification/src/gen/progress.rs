//! Progress of generation: how many steps are done out of the goal, and a
//! stack of status lines, one per nested task, read as one line.
use vstd::prelude::*;
use vstd::string::StringExecFns;

verus! {

/// The separator between the status lines of nested tasks.
pub open spec fn separator() -> Seq<char> {
    seq![' ', '>', ' ']
}

/// The status lines of the tasks still open, in order, joined by the
/// separator; a closed task has no line.
pub open spec fn joined(statuses: Seq<Option<Seq<char>>>) -> Seq<char>
    decreases statuses.len(),
{
    if statuses.len() == 0 {
        Seq::empty()
    } else {
        let acc = joined(statuses.drop_last());
        match statuses.last() {
            Some(item) => if acc.len() > 0 {
                acc + separator() + item
            } else {
                acc + item
            },
            None => acc,
        }
    }
}

/// The stack without its closed tasks at the top.
pub open spec fn trimmed(statuses: Seq<Option<Seq<char>>>) -> Seq<Option<Seq<char>>>
    decreases statuses.len(),
{
    if statuses.len() > 0 && statuses.last() is None {
        trimmed(statuses.drop_last())
    } else {
        statuses
    }
}

/// Entering a task and leaving it gives back the stack as it was, when the
/// stack has no closed task at its top (as `enter`, `set_status` and `leave`
/// keep it).
pub proof fn law_leave_undoes_enter(statuses: Seq<Option<Seq<char>>>, line: Seq<char>)
    requires
        statuses.len() == 0 || statuses.last() is Some,
    ensures
        trimmed(statuses.push(Some(line)).update(statuses.len() as int, None)) == statuses,
{
    let s = statuses.push(Some(line)).update(statuses.len() as int, None);
    assert(s.drop_last() =~= statuses);
    assert(trimmed(s) == trimmed(statuses));
}

/// The status lines as values.
pub open spec fn lines_of(statuses: Seq<Option<String>>) -> Seq<Option<Seq<char>>> {
    statuses.map_values(|s: Option<String>| match s {
        Some(t) => Some(t@),
        None => None,
    })
}

/// What a reader of progress sees: the steps done and the status line.
#[derive(Debug, Clone, PartialEq, Eq)]
pub struct Progress {
    current: usize,
    status: String,
}

impl Progress {
    /// The steps done.
    pub closed spec fn current_spec(self) -> usize {
        self.current
    }

    /// The status line.
    pub closed spec fn status_spec(self) -> Seq<char> {
        self.status@
    }

    /// The steps done.
    pub fn current(&self) -> (r: usize)
        ensures
            r == self.current_spec(),
    {
        self.current
    }

    /// The status line.
    pub fn status(&self) -> (r: &str)
        ensures
            r@ == self.status_spec(),
    {
        self.status.as_str()
    }
}

/// The progress of generation: the goal, the steps done and the stack of
/// status lines of nested tasks.
#[derive(Debug)]
pub struct Shared {
    goal: usize,
    current: usize,
    status: Vec<Option<String>>,
}

impl Shared {
    /// The goal.
    pub closed spec fn goal_spec(self) -> usize {
        self.goal
    }

    /// The steps done.
    pub closed spec fn current_spec(self) -> usize {
        self.current
    }

    /// The status lines, one per task entered.
    pub closed spec fn statuses_spec(self) -> Seq<Option<Seq<char>>> {
        lines_of(self.status@)
    }

    /// Progress towards `goal`, with no step done and no task entered.
    pub fn new(goal: usize) -> (r: Shared)
        ensures
            r.goal_spec() == goal,
            r.current_spec() == 0,
            r.statuses_spec() == Seq::<Option<Seq<char>>>::empty(),
    {
        let r = Shared { goal, current: 0, status: Vec::new() };
        assert(r.statuses_spec() =~= Seq::<Option<Seq<char>>>::empty());
        r
    }

    /// The goal.
    pub fn goal(&self) -> (r: usize)
        ensures
            r == self.goal_spec(),
    {
        self.goal
    }

    /// The status lines of the open tasks, joined by " > ".
    pub fn read_status(&self) -> (r: String)
        ensures
            r@ == joined(self.statuses_spec()),
    {
        let mut status = String::new();
        let mut i: usize = 0;
        while i < self.status.len()
            invariant
                i <= self.status@.len(),
                status@ == joined(lines_of(self.status@.subrange(0, i as int))),
            decreases self.status@.len() - i,
        {
            let ghost before = self.status@.subrange(0, i as int);
            let ghost after = self.status@.subrange(0, i + 1);
            assert(lines_of(after).drop_last() =~= lines_of(before));
            match &self.status[i] {
                Some(item) => {
                    proof {
                        reveal_strlit(" > ");
                    }
                    if !status.as_str().is_empty() {
                        status.append(" > ");
                        assert(" > "@ =~= separator());
                    }
                    status.append(item.as_str());
                },
                None => {},
            }
            i = i + 1;
        }
        assert(self.status@.subrange(0, self.status@.len() as int) =~= self.status@);
        status
    }

    /// The number of tasks on the stack.
    pub fn depth(&self) -> (r: usize)
        ensures
            r == self.statuses_spec().len(),
    {
        self.status.len()
    }

    /// The steps done.
    pub fn read_current(&self) -> (r: usize)
        ensures
            r == self.current_spec(),
    {
        self.current
    }

    /// The steps done and the status line.
    pub fn read(&self) -> (r: Progress)
        ensures
            r.current_spec() == self.current_spec(),
            r.status_spec() == joined(self.statuses_spec()),
    {
        Progress { status: self.read_status(), current: self.read_current() }
    }

    /// One more step done, wrapping around past the greatest count.
    pub fn increment(&mut self)
        ensures
            final(self).current_spec() == if old(self).current_spec() == usize::MAX {
                0
            } else {
                old(self).current_spec() + 1
            },
            final(self).goal_spec() == old(self).goal_spec(),
            final(self).statuses_spec() == old(self).statuses_spec(),
    {
        self.current = if self.current == usize::MAX {
            0
        } else {
            self.current + 1
        };
    }

    /// Sets the status line of the `index`-th task entered.
    pub fn set_status(&mut self, index: usize, status: &str)
        requires
            index < old(self).statuses_spec().len(),
        ensures
            final(self).statuses_spec() == old(self).statuses_spec().update(index as int, Some(status@)),
            final(self).goal_spec() == old(self).goal_spec(),
            final(self).current_spec() == old(self).current_spec(),
    {
        let ghost before = self.status@;
        self.status.set(index, Some(status.to_owned()));
        assert(lines_of(self.status@) =~= lines_of(before).update(index as int, Some(status@)));
    }

    /// Enters a nested task, with an empty status line; gives back its index.
    pub fn enter(&mut self) -> (r: usize)
        requires
            old(self).statuses_spec().len() < usize::MAX,
        ensures
            r == old(self).statuses_spec().len(),
            final(self).statuses_spec() == old(self).statuses_spec().push(Some(Seq::<char>::empty())),
            final(self).goal_spec() == old(self).goal_spec(),
            final(self).current_spec() == old(self).current_spec(),
    {
        let ghost before = self.status@;
        let index = self.status.len();
        self.status.push(Some(String::new()));
        assert(lines_of(self.status@) =~= lines_of(before).push(Some(Seq::<char>::empty())));
        index
    }

    /// Leaves the `index`-th task entered: its line goes, and so do the
    /// closed tasks left at the top of the stack.
    pub fn leave(&mut self, index: usize)
        requires
            index < old(self).statuses_spec().len(),
        ensures
            final(self).statuses_spec() == trimmed(old(self).statuses_spec().update(index as int, None)),
            final(self).goal_spec() == old(self).goal_spec(),
            final(self).current_spec() == old(self).current_spec(),
    {
        let ghost before = self.status@;
        self.status.set(index, None);
        assert(lines_of(self.status@) =~= lines_of(before).update(index as int, None));
        while self.status.len() > 0 && self.status[self.status.len() - 1].is_none()
            invariant
                trimmed(lines_of(self.status@)) == trimmed(lines_of(before).update(index as int, None)),
                self.goal == old(self).goal,
                self.current == old(self).current,
            decreases self.status@.len(),
        {
            let ghost s = self.status@;
            self.status.pop();
            assert(lines_of(self.status@) =~= lines_of(s).drop_last());
        }
        assert(trimmed(lines_of(self.status@)) == lines_of(self.status@));
    }
}

} // verus!
