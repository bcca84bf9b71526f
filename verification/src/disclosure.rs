//! Which disclosures of the activity stream the user has opened or closed.

use vstd::prelude::*;

use crate::activity::{ActivityStreamUnit, ConversationActivity, UnitView, group_is_active, units_view};
use crate::text::{str_eq, to_owned_string};

verus! {

/// A set after toggling `id`: removed if present, added otherwise.
pub open spec fn toggled(s: Set<Seq<char>>, id: Seq<char>) -> Set<Seq<char>> {
    if s.contains(id) {
        s.remove(id)
    } else {
        s.insert(id)
    }
}

/// Toggling the same id twice restores the set.
pub proof fn lemma_toggle_twice_restores(s: Set<Seq<char>>, id: Seq<char>)
    ensures
        toggled(toggled(s, id), id) == s,
{
    if s.contains(id) {
        assert(toggled(toggled(s, id), id) =~= s);
    } else {
        assert(toggled(toggled(s, id), id) =~= s);
    }
}

/// A set of item ids, each held once.
pub struct DisclosureSet {
    ids: Vec<String>,
}

impl View for DisclosureSet {
    type V = Set<Seq<char>>;

    closed spec fn view(&self) -> Set<Seq<char>> {
        Set::new(|s: Seq<char>| exists|i: int| 0 <= i < self.ids.len() && self.ids@[i]@ == s)
    }
}

impl DisclosureSet {
    #[verifier::type_invariant]
    spec fn distinct(self) -> bool {
        forall|i: int, j: int|
            0 <= i < j < self.ids.len() ==> (#[trigger] self.ids@[i])@ != (#[trigger] self.ids@[j])@
    }

    /// The empty set.
    pub fn new() -> (s: Self)
        ensures
            s@ == Set::<Seq<char>>::empty(),
    {
        let s = DisclosureSet { ids: Vec::new() };
        proof {
            assert(s@ =~= Set::<Seq<char>>::empty());
        }
        s
    }

    fn index_of(&self, id: &str) -> (r: Option<usize>)
        ensures
            r matches Some(i) ==> i < self.ids.len() && self.ids@[i as int]@ == id@,
            r is None ==> forall|i: int| 0 <= i < self.ids.len() ==> (#[trigger] self.ids@[i])@ != id@,
    {
        let mut i: usize = 0;
        while i < self.ids.len()
            invariant
                i <= self.ids.len(),
                forall|k: int| 0 <= k < i ==> (#[trigger] self.ids@[k])@ != id@,
            decreases self.ids.len() - i,
        {
            if str_eq(self.ids[i].as_str(), id) {
                return Some(i);
            }
            i += 1;
        }
        None
    }

    /// Whether the set is empty.
    pub fn is_empty(&self) -> (b: bool)
        ensures
            b == (self@ == Set::<Seq<char>>::empty()),
    {
        if self.ids.len() == 0 {
            proof {
                assert(self@ =~= Set::<Seq<char>>::empty());
            }
            true
        } else {
            proof {
                assert(self@.contains(self.ids@[0]@));
            }
            false
        }
    }

    /// Whether `id` is in the set.
    pub fn contains(&self, id: &str) -> (b: bool)
        ensures
            b == self@.contains(id@),
    {
        match self.index_of(id) {
            Some(i) => {
                proof {
                    assert(self@.contains(id@));
                }
                true
            },
            None => false,
        }
    }

    /// Adds `id` if absent and removes it if present; returns whether it is
    /// in the set afterwards.
    pub fn toggle(&mut self, id: &str) -> (now: bool)
        ensures
            now == !old(self)@.contains(id@),
            final(self)@ == toggled(old(self)@, id@),
    {
        proof {
            use_type_invariant(&*self);
        }
        let ghost before = self.ids@;
        match self.index_of(id) {
            Some(i) => {
                let ghost old_view = self@;
                let mut ids: Vec<String> = Vec::new();
                std::mem::swap(&mut ids, &mut self.ids);
                ids.remove(i);
                proof {
                    assert forall|a: int, b: int| 0 <= a < b < ids.len() implies (
                    #[trigger] ids@[a])@ != (#[trigger] ids@[b])@ by {
                        let a0 = if a < i { a } else { a + 1 };
                        let b0 = if b < i { b } else { b + 1 };
                        assert(ids@[a] == before[a0]);
                        assert(ids@[b] == before[b0]);
                        assert(before[a0]@ != before[b0]@);
                    }
                }
                self.ids = ids;
                proof {
                    assert(old_view.contains(id@));
                    assert forall|s: Seq<char>| #[trigger] self@.contains(s) == old_view.remove(
                        id@,
                    ).contains(s) by {
                        if self@.contains(s) {
                            let k = choose|k: int| 0 <= k < self.ids.len() && self.ids@[k]@ == s;
                            if k < i {
                                assert(self.ids@[k] == before[k]);
                                assert(before[k]@ != before[i as int]@);
                            } else {
                                assert(self.ids@[k] == before[k + 1]);
                                assert(before[k + 1]@ != before[i as int]@);
                            }
                            assert(old_view.contains(s));
                        }
                        if old_view.remove(id@).contains(s) {
                            let k = choose|k: int| 0 <= k < before.len() && before[k]@ == s;
                            assert(k != i);
                            if k < i {
                                assert(self.ids@[k] == before[k]);
                            } else {
                                assert(self.ids@[k - 1] == before[k]);
                            }
                        }
                    }
                    assert(self@ =~= old_view.remove(id@));
                }
                false
            },
            None => {
                let ghost old_view = self@;
                let mut ids: Vec<String> = Vec::new();
                std::mem::swap(&mut ids, &mut self.ids);
                ids.push(to_owned_string(id));
                proof {
                    assert forall|a: int, b: int| 0 <= a < b < ids.len() implies (
                    #[trigger] ids@[a])@ != (#[trigger] ids@[b])@ by {
                        if b == before.len() {
                            assert(ids@[a] == before[a]);
                        } else {
                            assert(ids@[a] == before[a]);
                            assert(ids@[b] == before[b]);
                        }
                    }
                }
                self.ids = ids;
                proof {
                    assert(!old_view.contains(id@));
                    assert forall|s: Seq<char>| #[trigger] self@.contains(s) == old_view.insert(
                        id@,
                    ).contains(s) by {
                        if self@.contains(s) {
                            let k = choose|k: int| 0 <= k < self.ids.len() && self.ids@[k]@ == s;
                            if k < before.len() {
                                assert(self.ids@[k] == before[k]);
                                assert(old_view.contains(s));
                            }
                        }
                        if old_view.insert(id@).contains(s) {
                            if s == id@ {
                                assert(self.ids@[before.len() as int]@ == s);
                            } else {
                                let k = choose|k: int| 0 <= k < before.len() && before[k]@ == s;
                                assert(self.ids@[k] == before[k]);
                            }
                        }
                    }
                    assert(self@ =~= old_view.insert(id@));
                }
                true
            },
        }
    }
}

/// The characters of the strings in `ids`, as a set.
pub open spec fn id_set(ids: Seq<String>) -> Set<Seq<char>> {
    Set::new(|s: Seq<char>| exists|i: int| 0 <= i < ids.len() && ids[i]@ == s)
}

/// The ids among the first `k` of `snap` that `keep` lacks.
pub open spec fn dropped(snap: Seq<String>, k: int, keep: Set<Seq<char>>) -> Set<Seq<char>> {
    Set::new(|s: Seq<char>| exists|j: int| 0 <= j < k && snap[j]@ == s && !keep.contains(s))
}

impl DisclosureSet {
    fn snapshot(&self) -> (snap: Vec<String>)
        ensures
            snap@ == self.ids@,
    {
        let mut snap: Vec<String> = Vec::new();
        let mut i: usize = 0;
        while i < self.ids.len()
            invariant
                i <= self.ids.len(),
                snap@ == self.ids@.take(i as int),
            decreases self.ids.len() - i,
        {
            snap.push(self.ids[i].clone());
            proof {
                assert(self.ids@.take(i + 1) =~= self.ids@.take(i as int).push(self.ids@[i as int]));
            }
            i += 1;
        }
        proof {
            assert(self.ids@.take(i as int) =~= self.ids@);
        }
        snap
    }

    /// Keeps only the ids that occur in `keep`.
    pub fn retain_in(&mut self, keep: &Vec<String>)
        ensures
            final(self)@ == old(self)@.intersect(id_set(keep@)),
    {
        let snap = self.snapshot();
        let ghost old_view = self@;
        let ghost ks = id_set(keep@);
        proof {
            assert(dropped(snap@, 0, ks) =~= Set::<Seq<char>>::empty());
            assert(old_view.difference(dropped(snap@, 0, ks)) =~= old_view);
        }
        let mut i: usize = 0;
        while i < snap.len()
            invariant
                i <= snap.len(),
                ks == id_set(keep@),
                self@ == old_view.difference(dropped(snap@, i as int, ks)),
            decreases snap.len() - i,
        {
            let mut found = false;
            let mut j: usize = 0;
            while j < keep.len()
                invariant
                    j <= keep.len(),
                    i < snap.len(),
                    found == exists|k: int| 0 <= k < j && keep@[k]@ == snap@[i as int]@,
                decreases keep.len() - j,
            {
                if str_eq(keep[j].as_str(), snap[i].as_str()) {
                    found = true;
                }
                j += 1;
            }
            let x = snap[i].as_str();
            proof {
                if found {
                    assert(ks.contains(x@));
                } else {
                    assert(!ks.contains(x@));
                }
                if found {
                    assert(dropped(snap@, i + 1, ks) =~= dropped(snap@, i as int, ks));
                } else {
                    assert(dropped(snap@, i + 1, ks) =~= dropped(snap@, i as int, ks).insert(x@));
                }
            }
            if !found && self.contains(x) {
                self.toggle(x);
                proof {
                    assert(self@ =~= old_view.difference(dropped(snap@, i + 1, ks)));
                }
            } else if !found {
                proof {
                    assert(self@ =~= old_view.difference(dropped(snap@, i + 1, ks)));
                }
            }
            i += 1;
        }
        proof {
            assert forall|s: Seq<char>| #[trigger] old_view.contains(s) implies (dropped(
                snap@,
                i as int,
                ks,
            ).contains(s) <==> !ks.contains(s)) by {
                let j = choose|j: int| 0 <= j < snap@.len() && snap@[j]@ == s;
                if !ks.contains(s) {
                    assert(snap@[j]@ == s);
                }
            }
            assert(self@ =~= old_view.intersect(ks));
        }
    }
}

/// The ids of the disclosures among `units`: every tool group and every
/// standalone image view, in order.
pub open spec fn disclosure_ids(units: Seq<UnitView>) -> Seq<Seq<char>>
    decreases units.len(),
{
    if units.len() == 0 {
        seq![]
    } else {
        disclosure_ids(units.drop_last()) + match units.last() {
            UnitView::ToolGroup(g) => seq![g.id@],
            UnitView::Standalone(ConversationActivity::ImageView(v)) => seq![v.id@],
            _ => seq![],
        }
    }
}

/// The ids of the disclosures among `units` that a user may hold closed
/// while live: running tool groups and standalone image views.
pub open spec fn live_disclosure_ids(units: Seq<UnitView>) -> Seq<Seq<char>>
    decreases units.len(),
{
    if units.len() == 0 {
        seq![]
    } else {
        live_disclosure_ids(units.drop_last()) + match units.last() {
            UnitView::ToolGroup(g) => if group_is_active(g) {
                seq![g.id@]
            } else {
                seq![]
            },
            UnitView::Standalone(ConversationActivity::ImageView(v)) => seq![v.id@],
            _ => seq![],
        }
    }
}

pub open spec fn seq_set(s: Seq<Seq<char>>) -> Set<Seq<char>> {
    Set::new(|x: Seq<char>| s.contains(x))
}

proof fn lemma_id_set_of_views(ids: Seq<String>, views: Seq<Seq<char>>)
    requires
        ids.map_values(|s: String| s@) == views,
    ensures
        id_set(ids) == seq_set(views),
{
    assert forall|x: Seq<char>| #[trigger] id_set(ids).contains(x) == seq_set(views).contains(x) by {
        if id_set(ids).contains(x) {
            let i = choose|i: int| 0 <= i < ids.len() && ids[i]@ == x;
            assert(views[i] == x);
        }
        if seq_set(views).contains(x) {
            let i = choose|i: int| 0 <= i < views.len() && views[i] == x;
            assert(ids[i]@ == x);
        }
    }
    assert(id_set(ids) =~= seq_set(views));
}

fn disclosure_id_lists(units: &Vec<ActivityStreamUnit>) -> (r: (Vec<String>, Vec<String>))
    ensures
        r.0@.map_values(|s: String| s@) == disclosure_ids(units_view(units@)),
        r.1@.map_values(|s: String| s@) == live_disclosure_ids(units_view(units@)),
{
    let ghost uv = units_view(units@);
    let mut present: Vec<String> = Vec::new();
    let mut live: Vec<String> = Vec::new();
    let mut i: usize = 0;
    while i < units.len()
        invariant
            i <= units.len(),
            uv == units_view(units@),
            present@.map_values(|s: String| s@) == disclosure_ids(uv.take(i as int)),
            live@.map_values(|s: String| s@) == live_disclosure_ids(uv.take(i as int)),
        decreases units.len() - i,
    {
        let ghost p0 = present@;
        let ghost l0 = live@;
        proof {
            assert(uv.take(i + 1).drop_last() =~= uv.take(i as int));
            assert(uv.take(i + 1).last() == units@[i as int]@);
        }
        match &units[i] {
            ActivityStreamUnit::ToolGroup(g) => {
                present.push(g.id.clone());
                if g.is_active() {
                    live.push(g.id.clone());
                }
            },
            ActivityStreamUnit::Standalone(ConversationActivity::ImageView(v)) => {
                present.push(v.id.clone());
                live.push(v.id.clone());
            },
            _ => {},
        }
        proof {
            assert(present@.map_values(|s: String| s@) =~= disclosure_ids(uv.take(i + 1)));
            assert(live@.map_values(|s: String| s@) =~= live_disclosure_ids(uv.take(i + 1)));
        }
        i += 1;
    }
    proof {
        assert(uv.take(i as int) =~= uv);
    }
    (present, live)
}

/// The disclosure state of the activity stream: expanded reasoning items,
/// expanded finished tool groups, collapsed live tool groups (live groups
/// start open), and expanded command cards.
pub struct ActivityDisclosures {
    pub expanded_reasoning: DisclosureSet,
    pub expanded_tool_groups: DisclosureSet,
    pub collapsed_active_tool_groups: DisclosureSet,
    pub expanded_commands: DisclosureSet,
}

impl ActivityDisclosures {
    /// Nothing opened or closed by the user yet.
    pub fn new() -> (d: Self)
        ensures
            d.expanded_reasoning@ == Set::<Seq<char>>::empty(),
            d.expanded_tool_groups@ == Set::<Seq<char>>::empty(),
            d.collapsed_active_tool_groups@ == Set::<Seq<char>>::empty(),
            d.expanded_commands@ == Set::<Seq<char>>::empty(),
    {
        ActivityDisclosures {
            expanded_reasoning: DisclosureSet::new(),
            expanded_tool_groups: DisclosureSet::new(),
            collapsed_active_tool_groups: DisclosureSet::new(),
            expanded_commands: DisclosureSet::new(),
        }
    }

    /// Whether a tool group is shown open: a live group unless the user
    /// collapsed it, a finished one only if the user expanded it.
    pub open spec fn tool_group_open(self, group_id: Seq<char>, active: bool) -> bool {
        if active {
            !self.collapsed_active_tool_groups@.contains(group_id)
        } else {
            self.expanded_tool_groups@.contains(group_id)
        }
    }

    /// Whether a tool group is shown open (see `tool_group_open`).
    pub fn tool_group_expanded(&self, group_id: &str, active: bool) -> (b: bool)
        ensures
            b == self.tool_group_open(group_id@, active),
    {
        if active {
            !self.collapsed_active_tool_groups.contains(group_id)
        } else {
            self.expanded_tool_groups.contains(group_id)
        }
    }

    /// Whether a reasoning item is shown open: always while it streams,
    /// else if the user opened it.
    pub fn reasoning_expanded(&self, item_id: &str, streaming: bool) -> (b: bool)
        ensures
            b == (streaming || self.expanded_reasoning@.contains(item_id@)),
    {
        streaming || self.expanded_reasoning.contains(item_id)
    }

    /// Whether an image view is shown open: while the turn still thinks it
    /// follows the live groups (open unless collapsed), afterwards the
    /// finished ones (open only if expanded).
    pub fn image_view_expanded(&self, image_id: &str, thinking: bool) -> (b: bool)
        ensures
            b == self.tool_group_open(image_id@, thinking),
    {
        self.tool_group_expanded(image_id, thinking)
    }

    /// Opens or closes a reasoning item; returns whether it is now open (the
    /// view then scrolls its body to the bottom).
    pub fn toggle_reasoning_item(&mut self, item_id: &str) -> (opened: bool)
        ensures
            opened == !old(self).expanded_reasoning@.contains(item_id@),
            final(self).expanded_reasoning@ == toggled(old(self).expanded_reasoning@, item_id@),
            final(self).expanded_tool_groups == old(self).expanded_tool_groups,
            final(self).collapsed_active_tool_groups == old(self).collapsed_active_tool_groups,
            final(self).expanded_commands == old(self).expanded_commands,
    {
        self.expanded_reasoning.toggle(item_id)
    }

    /// Opens or closes a command card; returns whether it is now open.
    pub fn toggle_command_activity(&mut self, item_id: &str) -> (opened: bool)
        ensures
            opened == !old(self).expanded_commands@.contains(item_id@),
            final(self).expanded_commands@ == toggled(old(self).expanded_commands@, item_id@),
            final(self).expanded_reasoning == old(self).expanded_reasoning,
            final(self).expanded_tool_groups == old(self).expanded_tool_groups,
            final(self).collapsed_active_tool_groups == old(self).collapsed_active_tool_groups,
    {
        self.expanded_commands.toggle(item_id)
    }

    /// Opens or closes a tool group, live or finished; returns whether it is
    /// now open.
    pub fn toggle_tool_activity_group(&mut self, group_id: &str, active: bool) -> (opened: bool)
        ensures
            opened == final(self).tool_group_open(group_id@, active),
            opened == !old(self).tool_group_open(group_id@, active),
            active ==> final(self).collapsed_active_tool_groups@ == toggled(
                old(self).collapsed_active_tool_groups@,
                group_id@,
            ) && final(self).expanded_tool_groups == old(self).expanded_tool_groups,
            !active ==> final(self).expanded_tool_groups@ == toggled(
                old(self).expanded_tool_groups@,
                group_id@,
            ) && final(self).collapsed_active_tool_groups == old(
                self,
            ).collapsed_active_tool_groups,
            final(self).expanded_reasoning == old(self).expanded_reasoning,
            final(self).expanded_commands == old(self).expanded_commands,
    {
        if active {
            let collapsed = self.collapsed_active_tool_groups.toggle(group_id);
            proof {
                if collapsed {
                    assert(self.collapsed_active_tool_groups@.contains(group_id@));
                } else {
                    assert(!self.collapsed_active_tool_groups@.contains(group_id@));
                }
            }
            !collapsed
        } else {
            let opened = self.expanded_tool_groups.toggle(group_id);
            proof {
                if opened {
                    assert(self.expanded_tool_groups@.contains(group_id@));
                } else {
                    assert(!self.expanded_tool_groups@.contains(group_id@));
                }
            }
            opened
        }
    }

    /// Forgets the choices about disclosures that left the stream: an
    /// expanded state is kept only for tool groups and image views still
    /// shown, a collapsed live state only for running groups and image
    /// views.
    pub fn prune_tool_group_disclosures(&mut self, units: &Vec<ActivityStreamUnit>)
        ensures
            final(self).expanded_tool_groups@ == old(self).expanded_tool_groups@.intersect(
                seq_set(disclosure_ids(units_view(units@))),
            ),
            final(self).collapsed_active_tool_groups@ == old(
                self,
            ).collapsed_active_tool_groups@.intersect(
                seq_set(live_disclosure_ids(units_view(units@))),
            ),
            final(self).expanded_reasoning == old(self).expanded_reasoning,
            final(self).expanded_commands == old(self).expanded_commands,
    {
        let (present, live) = disclosure_id_lists(units);
        proof {
            lemma_id_set_of_views(present@, disclosure_ids(units_view(units@)));
            lemma_id_set_of_views(live@, live_disclosure_ids(units_view(units@)));
        }
        self.expanded_tool_groups.retain_in(&present);
        self.collapsed_active_tool_groups.retain_in(&live);
    }
}

} // verus!
