use vstd::prelude::*;

use crate::keys::KeyCode;

verus! {

/// What a bound command does to the controller when its key is pressed.
/// The two reserved bindings end the session or force a re-render.
#[derive(Clone, Copy, Debug, PartialEq, Eq, Structural)]
pub enum Action {
    Terminate,
    Refresh,
}

/// A named, described action bound to a trigger key.
pub struct Instruction {
    trigger: KeyCode,
    name: String,
    description: String,
    action: Action,
}

impl Instruction {
    pub fn new(trigger: KeyCode, name: String, description: String, action: Action) -> (r:
        Instruction)
        ensures
            r.spec_trigger() == trigger,
            r.spec_name() == name@,
            r.spec_description() == description@,
            r.spec_action() == action,
    {
        Instruction { trigger, name, description, action }
    }

    pub closed spec fn spec_trigger(self) -> KeyCode {
        self.trigger
    }

    pub closed spec fn spec_name(self) -> Seq<char> {
        self.name@
    }

    pub closed spec fn spec_description(self) -> Seq<char> {
        self.description@
    }

    pub closed spec fn spec_action(self) -> Action {
        self.action
    }

    pub fn trigger(&self) -> (r: KeyCode)
        ensures
            r == self.spec_trigger(),
    {
        self.trigger
    }

    pub fn name(&self) -> (r: &str)
        ensures
            r@ == self.spec_name(),
    {
        self.name.as_str()
    }

    pub fn description(&self) -> (r: &str)
        ensures
            r@ == self.spec_description(),
    {
        self.description.as_str()
    }

    pub fn action(&self) -> (r: Action)
        ensures
            r == self.spec_action(),
    {
        self.action
    }
}

/// `row` is the two-column help row for `ins`.
pub open spec fn hint_row_ok(row: Vec<String>, ins: Instruction) -> bool {
    row@.len() == 2 && row@[0]@ == ins.spec_name() && row@[1]@ == ins.spec_description()
}

/// No two bindings share a trigger.
pub open spec fn unique_triggers(items: Seq<Instruction>) -> bool {
    forall|i: int, j: int|
        0 <= i < j < items.len() ==> items[i].spec_trigger() != items[j].spec_trigger()
}

/// First binding in `items` whose trigger is `key`.
pub open spec fn spec_find(items: Seq<Instruction>, key: KeyCode) -> Option<Instruction>
    decreases items.len(),
{
    if items.len() == 0 {
        None
    } else if items[0].spec_trigger() == key {
        Some(items[0])
    } else {
        spec_find(items.drop_first(), key)
    }
}

/// The command table: bindings looked up by trigger key; kept in insertion
/// order so the generated help listing is stable.
pub struct InstructionSet {
    items: Vec<Instruction>,
}

impl InstructionSet {
    /// The bindings, in display order.
    pub closed spec fn rows(self) -> Seq<Instruction> {
        self.items@
    }

    /// Triggers are unique, so a lookup has exactly one answer.
    pub open spec fn wf(self) -> bool {
        unique_triggers(self.rows())
    }

    pub open spec fn find(self, key: KeyCode) -> Option<Instruction> {
        spec_find(self.rows(), key)
    }

    /// The action bound to `key`, if any.
    pub open spec fn action_of(self, key: KeyCode) -> Option<Action> {
        match self.find(key) {
            Some(ins) => Some(ins.spec_action()),
            None => None,
        }
    }

    pub fn empty() -> (r: InstructionSet)
        ensures
            r.rows() == Seq::<Instruction>::empty(),
            r.wf(),
    {
        InstructionSet { items: Vec::new() }
    }

    /// Look up the binding for a key; `None` for an unbound key.
    pub fn get(&self, code: KeyCode) -> (r: Option<&Instruction>)
        ensures
            match r {
                Some(ins) => self.find(code) == Some(*ins),
                None => self.find(code) is None,
            },
    {
        let n = self.items.len();
        let mut i: usize = 0;
        proof {
            assert(self.items@.skip(0) =~= self.items@);
        }
        while i < n
            invariant
                i <= n,
                n == self.items@.len(),
                spec_find(self.items@, code) == spec_find(self.items@.skip(i as int), code),
            decreases n - i,
        {
            if self.items[i].trigger() == code {
                assert(self.items@.skip(i as int)[0] == self.items@[i as int]);
                return Some(&self.items[i]);
            }
            proof {
                assert(self.items@.skip(i as int)[0] == self.items@[i as int]);
                assert(self.items@.skip(i as int).drop_first() =~= self.items@.skip(
                    i as int + 1,
                ));
            }
            i = i + 1;
        }
        proof {
            assert(self.items@.skip(n as int) =~= Seq::<Instruction>::empty());
        }
        None
    }

    /// The action bound to a key, copied out so the caller keeps no borrow.
    pub fn lookup_action(&self, code: KeyCode) -> (r: Option<Action>)
        ensures
            r == self.action_of(code),
    {
        match self.get(code) {
            Some(ins) => Some(ins.action()),
            None => None,
        }
    }

    /// Bind `com` to its trigger: an existing binding for the same trigger
    /// is replaced in place (last write wins), a new trigger is appended.
    pub fn insert(&mut self, com: Instruction)
        requires
            old(self).wf(),
        ensures
            final(self).wf(),
            final(self).find(com.spec_trigger()) == Some(com),
            forall|k: KeyCode|
                k != com.spec_trigger() ==> final(self).find(k) == old(self).find(k),
            old(self).find(com.spec_trigger()) is None ==> final(self).rows() == old(
                self,
            ).rows().push(com),
            old(self).find(com.spec_trigger()) is Some ==> exists|i: int|
                0 <= i < old(self).rows().len() && old(self).rows()[i].spec_trigger()
                    == com.spec_trigger() && final(self).rows() == old(self).rows().update(i, com),
    {
        let ghost pre = self.items@;
        let n = self.items.len();
        let mut i: usize = 0;
        while i < n
            invariant
                i <= n,
                n == self.items@.len(),
                self.items@ == pre,
                pre == old(self).rows(),
                unique_triggers(pre),
                forall|j: int| 0 <= j < i ==> pre[j].spec_trigger() != com.spec_trigger(),
            decreases n - i,
        {
            if self.items[i].trigger() == com.trigger() {
                proof {
                    lemma_find_found(pre, i as int, com.spec_trigger());
                    lemma_wf_update(pre, i as int, com);
                    assert forall|k: KeyCode| #![auto] spec_find(pre.update(i as int, com), k)
                        == (if k == com.spec_trigger() {
                        Some(com)
                    } else {
                        spec_find(pre, k)
                    }) by {
                        lemma_find_update_first(pre, i as int, com, k);
                    }
                }
                self.items.set(i, com);
                return ;
            }
            i = i + 1;
        }
        proof {
            lemma_find_none(pre, com.spec_trigger());
            lemma_wf_push(pre, com);
            assert forall|k: KeyCode| #![auto] spec_find(pre.push(com), k) == (if k
                == com.spec_trigger() {
                Some(com)
            } else {
                spec_find(pre, k)
            }) by {
                lemma_find_push(pre, com, k);
            }
        }
        self.items.push(com);
    }

    /// Bind a fresh command built from its parts.
    pub fn add(&mut self, key: KeyCode, name: &str, desc: &str, action: Action)
        requires
            old(self).wf(),
        ensures
            final(self).wf(),
            final(self).find(key) matches Some(ins) && ins.spec_trigger() == key
                && ins.spec_name() == name@ && ins.spec_description() == desc@
                && ins.spec_action() == action,
            forall|k: KeyCode| k != key ==> final(self).find(k) == old(self).find(k),
            old(self).find(key) is None ==> final(self).rows().len() == old(self).rows().len() + 1
                && final(self).rows().last().spec_trigger() == key && final(self).rows().take(
                old(self).rows().len() as int,
            ) == old(self).rows(),
    {
        let com = Instruction::new(key, name.to_owned(), desc.to_owned(), action);
        self.insert(com);
        proof {
            if old(self).find(key) is None {
                assert(final(self).rows().take(old(self).rows().len() as int) =~= old(
                    self,
                ).rows());
            }
        }
    }

    /// The `(name, description)` help rows, in stable display order.
    pub fn hint(&self) -> (r: Vec<Vec<String>>)
        ensures
            r@.len() == self.rows().len(),
            forall|i: int| 0 <= i < r@.len() ==> #[trigger] hint_row_ok(r@[i], self.rows()[i]),
    {
        let mut rows: Vec<Vec<String>> = Vec::new();
        let n = self.items.len();
        let mut i: usize = 0;
        while i < n
            invariant
                i <= n,
                n == self.items@.len(),
                rows@.len() == i,
                forall|j: int| 0 <= j < i ==> #[trigger] hint_row_ok(rows@[j], self.items@[j]),
            decreases n - i,
        {
            let mut row: Vec<String> = Vec::new();
            row.push(self.items[i].name.clone());
            row.push(self.items[i].description.clone());
            proof {
                assert(hint_row_ok(row, self.items@[i as int]));
            }
            rows.push(row);
            i = i + 1;
        }
        rows
    }
}

/// `t` is exactly the base table: the reserved quit binding on `Esc`, the
/// reserved manual-refresh binding on `Enter`, and nothing else.
pub open spec fn is_base_set(t: InstructionSet) -> bool {
    &&& t.wf()
    &&& t.rows().len() == 2
    &&& (t.find(KeyCode::Esc) matches Some(q) && q.spec_name() == "Esc"@ && q.spec_description()
        == "Quit"@ && q.spec_action() == Action::Terminate)
    &&& (t.find(KeyCode::Enter) matches Some(u) && u.spec_name() == "Enter"@
        && u.spec_description() == "Update"@ && u.spec_action() == Action::Refresh)
    &&& forall|k: KeyCode| k != KeyCode::Esc && k != KeyCode::Enter ==> t.action_of(k) is None
    &&& t.rows()[0].spec_trigger() == KeyCode::Esc
    &&& t.rows()[1].spec_trigger() == KeyCode::Enter
}

/// The base table every controller starts from: the reserved quit and
/// manual-refresh bindings.
pub fn command_base_set() -> (r: InstructionSet)
    ensures
        is_base_set(r),
{
    let mut set = InstructionSet::empty();
    set.add(KeyCode::Esc, "Esc", "Quit", Action::Terminate);
    set.add(KeyCode::Enter, "Enter", "Update", Action::Refresh);
    set
}

proof fn lemma_find_found(items: Seq<Instruction>, i: int, key: KeyCode)
    requires
        0 <= i < items.len(),
        items[i].spec_trigger() == key,
        forall|j: int| 0 <= j < i ==> items[j].spec_trigger() != key,
    ensures
        spec_find(items, key) == Some(items[i]),
    decreases i,
{
    if i > 0 {
        lemma_find_found(items.drop_first(), i - 1, key);
    }
}

proof fn lemma_find_none(items: Seq<Instruction>, key: KeyCode)
    requires
        forall|j: int| 0 <= j < items.len() ==> items[j].spec_trigger() != key,
    ensures
        spec_find(items, key) is None,
    decreases items.len(),
{
    if items.len() > 0 {
        lemma_find_none(items.drop_first(), key);
    }
}

proof fn lemma_find_update_first(items: Seq<Instruction>, i: int, com: Instruction, k: KeyCode)
    requires
        0 <= i < items.len(),
        items[i].spec_trigger() == com.spec_trigger(),
        forall|j: int| 0 <= j < i ==> items[j].spec_trigger() != com.spec_trigger(),
    ensures
        spec_find(items.update(i, com), k) == (if k == com.spec_trigger() {
            Some(com)
        } else {
            spec_find(items, k)
        }),
    decreases i,
{
    if i == 0 {
        assert(items.update(0, com).drop_first() =~= items.drop_first());
        assert(items.update(0, com)[0] == com);
    } else {
        lemma_find_update_first(items.drop_first(), i - 1, com, k);
        assert(items.update(i, com).drop_first() =~= items.drop_first().update(i - 1, com));
        assert(items.update(i, com)[0] == items[0]);
    }
}

proof fn lemma_find_push(items: Seq<Instruction>, com: Instruction, k: KeyCode)
    requires
        forall|j: int| 0 <= j < items.len() ==> items[j].spec_trigger() != com.spec_trigger(),
    ensures
        spec_find(items.push(com), k) == (if k == com.spec_trigger() {
            Some(com)
        } else {
            spec_find(items, k)
        }),
    decreases items.len(),
{
    if items.len() == 0 {
        assert(items.push(com)[0] == com);
        assert(items.push(com).drop_first() =~= Seq::<Instruction>::empty());
        assert(spec_find(Seq::<Instruction>::empty(), k) is None);
    } else {
        lemma_find_push(items.drop_first(), com, k);
        assert(items.push(com).drop_first() =~= items.drop_first().push(com));
        assert(items.push(com)[0] == items[0]);
    }
}

proof fn lemma_wf_update(items: Seq<Instruction>, i: int, com: Instruction)
    requires
        0 <= i < items.len(),
        items[i].spec_trigger() == com.spec_trigger(),
        unique_triggers(items),
    ensures
        unique_triggers(items.update(i, com)),
{
    assert forall|p: int, q: int| 0 <= p < q < items.update(i, com).len() implies items.update(
        i,
        com,
    )[p].spec_trigger() != items.update(i, com)[q].spec_trigger() by {
        assert(items[p].spec_trigger() != items[q].spec_trigger());
    }
}

proof fn lemma_wf_push(items: Seq<Instruction>, com: Instruction)
    requires
        forall|j: int| 0 <= j < items.len() ==> items[j].spec_trigger() != com.spec_trigger(),
        unique_triggers(items),
    ensures
        unique_triggers(items.push(com)),
{
    assert forall|p: int, q: int| 0 <= p < q < items.push(com).len() implies items.push(
        com,
    )[p].spec_trigger() != items.push(com)[q].spec_trigger() by {
        if q < items.len() {
            assert(items[p].spec_trigger() != items[q].spec_trigger());
        }
    }
}

} // verus!
