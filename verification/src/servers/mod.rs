//! Rules on which tools a caller gets to see.

use crate::utils::text::str_eq;
use vstd::prelude::*;

pub mod elasticsearch;

verus! {

/// Inclusion or exclusion list.
pub enum IncludeExclude {
    Include(Vec<String>),
    Exclude(Vec<String>),
}

/// A tool as the rules see it: its name, and the tool itself, which the rules never read.
pub struct NamedTool<T> {
    pub name: String,
    pub tool: T,
}

/// The names that a list holds.
pub open spec fn listed(names: Seq<String>) -> Set<Seq<char>> {
    Set::new(|name: Seq<char>| exists|i: int| 0 <= i < names.len() && (#[trigger] names[i])@ == name)
}

impl IncludeExclude {
    /// An inclusion list shows the names it holds, an exclusion list all others.
    pub open spec fn includes(&self, name: Seq<char>) -> bool {
        match self {
            IncludeExclude::Include(names) => listed(names@).contains(name),
            IncludeExclude::Exclude(names) => !listed(names@).contains(name),
        }
    }

    /// The tools of `tools` that the rule shows, in their order.
    pub open spec fn shown<T>(&self, tools: Seq<NamedTool<T>>) -> Seq<NamedTool<T>> {
        tools.filter(|t: NamedTool<T>| self.includes(t.name@))
    }

    pub fn is_included(&self, name: &str) -> (r: bool)
        ensures
            r == self.includes(name@),
    {
        match self {
            IncludeExclude::Include(names) => holds(names, name),
            IncludeExclude::Exclude(names) => !holds(names, name),
        }
    }

    /// Keeps the tools that the rule shows, in their order, and drops the others.
    pub fn filter<T>(&self, tools: &mut Vec<NamedTool<T>>)
        ensures
            final(tools)@ == self.shown(old(tools)@),
    {
        let mut source: Vec<NamedTool<T>> = Vec::new();
        std::mem::swap(tools, &mut source);
        let ghost all = source@;
        proof {
            reveal(Seq::filter);
            assert(all.take(0) =~= Seq::<NamedTool<T>>::empty());
        }
        for t in it: source
            invariant
                it.seq() == all,
                tools@ == self.shown(all.take(it.index() as int)),
        {
            proof {
                reveal(Seq::filter);
                assert(all.take(it.index() + 1).drop_last() =~= all.take(it.index() as int));
            }
            if self.is_included(t.name.as_str()) {
                tools.push(t);
            }
        }
        assert(all.take(all.len() as int) =~= all);
    }
}

/// Whether `names` holds `name`.
fn holds(names: &Vec<String>, name: &str) -> (r: bool)
    ensures
        r == listed(names@).contains(name@),
{
    let mut i: usize = 0;
    while i < names.len()
        invariant
            i <= names.len(),
            forall|j: int| 0 <= j < i ==> (#[trigger] names@[j])@ != name@,
        decreases names.len() - i,
    {
        if str_eq(names[i].as_str(), name) {
            return true;
        }
        i += 1;
    }
    false
}

/// `places` gives, for each item of `part`, where it stands in `whole`, in rising order.
pub open spec fn is_subsequence_at<T>(part: Seq<T>, whole: Seq<T>, places: Seq<int>) -> bool {
    &&& places.len() == part.len()
    &&& forall|i: int|
        0 <= i < part.len() ==> 0 <= #[trigger] places[i] < whole.len() && part[i]
            == whole[places[i]]
    &&& forall|i: int, j: int| 0 <= i < j < part.len() ==> places[i] < places[j]
}

/// `part` is `whole` with some items left out and the others in their order.
pub open spec fn is_subsequence<T>(part: Seq<T>, whole: Seq<T>) -> bool {
    exists|places: Seq<int>| is_subsequence_at(part, whole, places)
}

proof fn lemma_filter_places<T>(s: Seq<T>, pred: spec_fn(T) -> bool) -> (places: Seq<int>)
    ensures
        is_subsequence_at(s.filter(pred), s, places),
    decreases s.len(),
{
    reveal(Seq::filter);
    if s.len() == 0 {
        Seq::empty()
    } else {
        let sub = lemma_filter_places(s.drop_last(), pred);
        if pred(s.last()) {
            sub.push(s.len() - 1)
        } else {
            sub
        }
    }
}

/// What a rule shows of a list is that list with some tools left out: no
/// tool is added, none is moved.
pub proof fn lemma_shown_keeps_order<T>(rule: IncludeExclude, tools: Seq<NamedTool<T>>)
    ensures
        is_subsequence(rule.shown(tools), tools),
{
    let places = lemma_filter_places(tools, |t: NamedTool<T>| rule.includes(t.name@));
    assert(is_subsequence_at(rule.shown(tools), tools, places));
}

/// A rule shows exactly the tools of the list whose names it includes.
pub proof fn lemma_shown_tools<T>(rule: IncludeExclude, tools: Seq<NamedTool<T>>)
    ensures
        forall|i: int|
            0 <= i < rule.shown(tools).len() ==> rule.includes(
                (#[trigger] rule.shown(tools)[i]).name@,
            ),
        forall|i: int|
            0 <= i < tools.len() && rule.includes((#[trigger] tools[i]).name@) ==> rule.shown(
                tools,
            ).contains(tools[i]),
{
    broadcast use vstd::seq_lib::group_filter_ensures;

}

/// With an inclusion list, every tool that is left has its name on the list,
/// and every tool whose name is on the list is left.
pub proof fn lemma_include_shows_listed<T>(names: Vec<String>, tools: Seq<NamedTool<T>>)
    ensures
        forall|i: int|
            0 <= i < IncludeExclude::Include(names).shown(tools).len() ==> listed(
                names@,
            ).contains((#[trigger] IncludeExclude::Include(names).shown(tools)[i]).name@),
        forall|i: int|
            0 <= i < tools.len() && listed(names@).contains((#[trigger] tools[i]).name@)
                ==> IncludeExclude::Include(names).shown(tools).contains(tools[i]),
{
    lemma_shown_tools(IncludeExclude::Include(names), tools);
}

/// With an exclusion list, no tool that is left has its name on the list,
/// and every tool whose name is not on the list is left.
pub proof fn lemma_exclude_hides_listed<T>(names: Vec<String>, tools: Seq<NamedTool<T>>)
    ensures
        forall|i: int|
            0 <= i < IncludeExclude::Exclude(names).shown(tools).len() ==> !listed(
                names@,
            ).contains((#[trigger] IncludeExclude::Exclude(names).shown(tools)[i]).name@),
        forall|i: int|
            0 <= i < tools.len() && !listed(names@).contains((#[trigger] tools[i]).name@)
                ==> IncludeExclude::Exclude(names).shown(tools).contains(tools[i]),
{
    lemma_shown_tools(IncludeExclude::Exclude(names), tools);
}

} // verus!
