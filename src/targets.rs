use crate::deploy::strings_view;
use crate::error::WebhookError;
use crate::notify::{split_list, split_on};
use vstd::prelude::*;

verus! {

/// Repository full names and the deployment target each one redeploys.
pub struct TargetMapping {
    entries: Vec<(String, String)>,
}

impl TargetMapping {
    /// No repository is entered twice.
    pub closed spec fn wf(&self) -> bool {
        forall|i: int, j: int|
            0 <= i < self.entries@.len() && 0 <= j < self.entries@.len() && i != j
                ==> #[trigger] self.entries@[i].0@ != #[trigger] self.entries@[j].0@
    }

    pub closed spec fn has_entry(&self, name: Seq<char>) -> bool {
        exists|i: int| 0 <= i < self.entries@.len() && #[trigger] self.entries@[i].0@ == name
    }

    /// The target entered for `name`, if any.
    pub closed spec fn target_spec(&self, name: Seq<char>) -> Option<Seq<char>> {
        if self.has_entry(name) {
            let i = choose|i: int| 0 <= i < self.entries@.len() && #[trigger] self.entries@[i].0@ == name;
            Some(self.entries@[i].1@)
        } else {
            None
        }
    }
}

impl View for TargetMapping {
    type V = Map<Seq<char>, Seq<char>>;

    open spec fn view(&self) -> Map<Seq<char>, Seq<char>> {
        Map::new(|k: Seq<char>| self.has_entry(k), |k: Seq<char>| self.target_spec(k)->Some_0)
    }
}

impl TargetMapping {
    /// A table with no repository.
    pub fn new() -> (r: TargetMapping)
        ensures
            r.wf(),
            r@ == Map::<Seq<char>, Seq<char>>::empty(),
    {
        let r = TargetMapping { entries: Vec::new() };
        assert(r@ =~= Map::<Seq<char>, Seq<char>>::empty());
        r
    }

    /// Index of the entry for `name`.
    fn position(&self, name: &String) -> (r: Option<usize>)
        requires
            self.wf(),
        ensures
            match r {
                Some(i) => i < self.entries@.len() && self.entries@[i as int].0@ == name@,
                None => !self.has_entry(name@),
            },
    {
        let mut i: usize = 0;
        while i < self.entries.len()
            invariant
                i <= self.entries@.len(),
                forall|j: int| 0 <= j < i ==> #[trigger] self.entries@[j].0@ != name@,
            decreases self.entries@.len() - i,
        {
            if self.entries[i].0.eq(name) {
                return Some(i);
            }
            i = i + 1;
        }
        None
    }

    /// Enters `target` for `repository`, replacing any earlier target.
    pub fn insert(&mut self, repository: String, target: String)
        requires
            old(self).wf(),
        ensures
            final(self).wf(),
            final(self)@ == old(self)@.insert(repository@, target@),
    {
        let ghost old_self = *self;
        match self.position(&repository) {
            Some(i) => {
                self.entries.set(i, (repository, target));
                proof {
                    assert forall|k: Seq<char>| #[trigger] self.has_entry(k) == (old_self.has_entry(k)) by {
                        if old_self.has_entry(k) {
                            let j = choose|j: int| 0 <= j < old_self.entries@.len() && #[trigger] old_self.entries@[j].0@ == k;
                            assert(self.entries@[j].0@ == k);
                        }
                        if self.has_entry(k) {
                            let j = choose|j: int| 0 <= j < self.entries@.len() && #[trigger] self.entries@[j].0@ == k;
                            assert(old_self.entries@[j].0@ == k);
                        }
                    }
                    assert(self.has_entry(self.entries@[i as int].0@));
                    assert(self@ =~= old_self@.insert(self.entries@[i as int].0@, self.entries@[i as int].1@));
                }
            },
            None => {
                self.entries.push((repository, target));
                proof {
                    let n = old_self.entries@.len() as int;
                    assert forall|k: Seq<char>| #[trigger] self.has_entry(k) == (old_self.has_entry(k) || k == self.entries@[n].0@) by {
                        if old_self.has_entry(k) {
                            let j = choose|j: int| 0 <= j < old_self.entries@.len() && #[trigger] old_self.entries@[j].0@ == k;
                            assert(self.entries@[j].0@ == k);
                        }
                        if k == self.entries@[n].0@ {
                            assert(self.entries@[n].0@ == k);
                        }
                    }
                    assert(self@ =~= old_self@.insert(self.entries@[n].0@, self.entries@[n].1@));
                }
            },
        }
    }

    /// The target entered for `name`.
    pub fn target_of(&self, name: &String) -> (r: Option<&String>)
        requires
            self.wf(),
        ensures
            match r {
                Some(t) => self@.contains_key(name@) && self@[name@] == t@,
                None => !self@.contains_key(name@),
            },
    {
        match self.position(name) {
            Some(i) => Some(&self.entries[i].1),
            None => None,
        }
    }

    /// The target of `name`, or the error that names an unconfigured repository.
    pub fn resolve(&self, name: &String) -> (r: Result<String, WebhookError>)
        requires
            self.wf(),
        ensures
            match r {
                Ok(t) => self@.contains_key(name@) && self@[name@] == t@,
                Err(e) => !self@.contains_key(name@) && e == WebhookError::UnconfiguredRepository(
                    *name,
                ),
            },
    {
        match self.target_of(name) {
            Some(t) => Ok(t.clone()),
            None => Err(WebhookError::UnconfiguredRepository(name.clone())),
        }
    }
}

/// The table that configuration entries describe, each entry `repository=target`,
/// later entries replacing earlier ones for the same repository and empty
/// entries skipped; `None` when an entry has no `=` or more than one.
pub open spec fn table_of_entries(entries: Seq<Seq<char>>) -> Option<Map<Seq<char>, Seq<char>>>
    decreases entries.len(),
{
    if entries.len() == 0 {
        Some(Map::empty())
    } else {
        match table_of_entries(entries.drop_last()) {
            None => None,
            Some(m) => {
                let e = entries.last();
                let parts = split_on(e, '=');
                if e.len() == 0 {
                    Some(m)
                } else if parts.len() == 2 {
                    Some(m.insert(parts[0], parts[1]))
                } else {
                    None
                }
            },
        }
    }
}

proof fn lemma_bad_entry_spoils_table(entries: Seq<Seq<char>>, k: int)
    requires
        0 <= k <= entries.len(),
        table_of_entries(entries.take(k)) is None,
    ensures
        table_of_entries(entries) is None,
    decreases entries.len() - k,
{
    if k == entries.len() {
        assert(entries.take(k) =~= entries);
    } else {
        assert(entries.drop_last().take(k) =~= entries.take(k));
        lemma_bad_entry_spoils_table(entries.drop_last(), k);
    }
}

/// The table that a comma-separated configuration text describes.
pub open spec fn table_of_config(text: Seq<char>) -> Option<Map<Seq<char>, Seq<char>>> {
    table_of_entries(split_on(text, ','))
}

impl TargetMapping {
    /// Builds the table from configuration text such as
    /// `org/app=app_tag,org/api=api_tag`.
    pub fn from_config(text: &str) -> (r: Option<TargetMapping>)
        ensures
            match r {
                Some(t) => t.wf() && table_of_config(text@) == Some(t@),
                None => table_of_config(text@) is None,
            },
    {
        let entries = split_list(text, ',');
        let ghost ev = strings_view(entries@);
        let mut table = TargetMapping::new();
        let mut i: usize = 0;
        assert(ev.take(0) =~= Seq::<Seq<char>>::empty());
        while i < entries.len()
            invariant
                i <= entries@.len(),
                ev == strings_view(entries@),
                ev == split_on(text@, ','),
                table.wf(),
                table_of_entries(ev.take(i as int)) == Some(table@),
            decreases entries@.len() - i,
        {
            assert(ev.take(i + 1).drop_last() =~= ev.take(i as int));
            assert(ev.take(i + 1).last() == entries@[i as int]@);
            let e = &entries[i];
            if e.unicode_len() != 0 {
                let mut parts = split_list(e.as_str(), '=');
                if parts.len() != 2 {
                    proof {
                        assert(strings_view(parts@).len() == parts@.len());
                        lemma_bad_entry_spoils_table(ev, i + 1);
                    }
                    return None;
                }
                let target = parts.pop().unwrap();
                let repository = parts.pop().unwrap();
                table.insert(repository, target);
            }
            i = i + 1;
        }
        assert(ev.take(entries@.len() as int) =~= ev);
        Some(table)
    }
}

} // verus!
