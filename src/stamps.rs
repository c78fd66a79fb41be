use vstd::prelude::*;
use crate::record::Timestamp;

verus! {

/// The map that a list of (tag, timestamp) entries stands for.
pub open spec fn entries_map(v: Seq<(String, Timestamp)>) -> Map<Seq<char>, Timestamp>
    decreases v.len(),
{
    if v.len() == 0 {
        Map::empty()
    } else {
        entries_map(v.drop_last()).insert(v.last().0@, v.last().1)
    }
}

/// No tag occurs twice.
pub open spec fn unique_tags(v: Seq<(String, Timestamp)>) -> bool {
    forall|i: int, j: int| 0 <= i < j < v.len() ==> v[i].0@ != v[j].0@
}

/// The last timestamp seen for each tag.
pub struct TagTimes {
    entries: Vec<(String, Timestamp)>,
}

impl View for TagTimes {
    type V = Map<Seq<char>, Timestamp>;

    closed spec fn view(&self) -> Map<Seq<char>, Timestamp> {
        entries_map(self.entries@)
    }
}

proof fn lemma_map_domain(v: Seq<(String, Timestamp)>, k: Seq<char>)
    ensures
        entries_map(v).contains_key(k) <==> exists|i: int| 0 <= i < v.len() && v[i].0@ == k,
    decreases v.len(),
{
    if v.len() > 0 {
        lemma_map_domain(v.drop_last(), k);
        if entries_map(v.drop_last()).contains_key(k) {
            let i = choose|i: int| 0 <= i < v.drop_last().len() && v.drop_last()[i].0@ == k;
            assert(v[i].0@ == k);
        }
        if exists|i: int| 0 <= i < v.len() && v[i].0@ == k {
            let i = choose|i: int| 0 <= i < v.len() && v[i].0@ == k;
            if i < v.len() - 1 {
                assert(v.drop_last()[i].0@ == k);
            }
        }
    }
}

proof fn lemma_map_value(v: Seq<(String, Timestamp)>, i: int)
    requires
        unique_tags(v),
        0 <= i < v.len(),
    ensures
        entries_map(v).contains_key(v[i].0@),
        entries_map(v)[v[i].0@] == v[i].1,
    decreases v.len(),
{
    if i < v.len() - 1 {
        assert(v.drop_last()[i] == v[i]);
        lemma_map_value(v.drop_last(), i);
    }
}

proof fn lemma_map_update(v: Seq<(String, Timestamp)>, i: int, t: Timestamp)
    requires
        unique_tags(v),
        0 <= i < v.len(),
    ensures
        entries_map(v.update(i, (v[i].0, t))) == entries_map(v).insert(v[i].0@, t),
    decreases v.len(),
{
    let u = v.update(i, (v[i].0, t));
    if i == v.len() - 1 {
        assert(u.drop_last() =~= v.drop_last());
        lemma_map_domain(v.drop_last(), v[i].0@);
        assert(entries_map(u) =~= entries_map(v).insert(v[i].0@, t));
    } else {
        assert(u.drop_last() =~= v.drop_last().update(i, (v[i].0, t)));
        lemma_map_update(v.drop_last(), i, t);
        assert(entries_map(u) =~= entries_map(v).insert(v[i].0@, t));
    }
}

impl TagTimes {
    /// No tag is listed twice.
    pub closed spec fn wf(&self) -> bool {
        unique_tags(self.entries@)
    }

    /// An empty table.
    pub fn new() -> (r: TagTimes)
        ensures
            r.wf(),
            r@ == Map::<Seq<char>, Timestamp>::empty(),
    {
        TagTimes { entries: Vec::new() }
    }

    /// The last timestamp recorded for `tag`.
    pub fn get(&self, tag: &String) -> (r: Option<Timestamp>)
        requires
            self.wf(),
        ensures
            r is Some <==> self@.contains_key(tag@),
            r is Some ==> r->0 == self@[tag@],
    {
        let mut i: usize = 0;
        while i < self.entries.len()
            invariant
                i <= self.entries@.len(),
                unique_tags(self.entries@),
                forall|j: int| 0 <= j < i ==> self.entries@[j].0@ != tag@,
            decreases self.entries@.len() - i,
        {
            if self.entries[i].0 == *tag {
                proof {
                    lemma_map_value(self.entries@, i as int);
                }
                return Some(self.entries[i].1);
            }
            i = i + 1;
        }
        proof {
            lemma_map_domain(self.entries@, tag@);
        }
        None
    }

    /// Records `t` as the last timestamp of `tag`.
    pub fn set(&mut self, tag: &String, t: Timestamp)
        requires
            old(self).wf(),
        ensures
            final(self).wf(),
            final(self)@ == old(self)@.insert(tag@, t),
    {
        let mut i: usize = 0;
        while i < self.entries.len()
            invariant
                i <= self.entries@.len(),
                self.entries@ == old(self).entries@,
                unique_tags(self.entries@),
                forall|j: int| 0 <= j < i ==> self.entries@[j].0@ != tag@,
            decreases self.entries@.len() - i,
        {
            if self.entries[i].0 == *tag {
                let key = self.entries[i].0.clone();
                proof {
                    lemma_map_update(self.entries@, i as int, t);
                }
                self.entries.set(i, (key, t));
                assert(self.entries@ == old(self).entries@.update(i as int, (old(self).entries@[i as int].0, t)));
                assert(forall|j: int| 0 <= j < self.entries@.len() ==> self.entries@[j].0@ == old(self).entries@[j].0@);
                return;
            }
            i = i + 1;
        }
        proof {
            lemma_map_domain(self.entries@, tag@);
        }
        self.entries.push((tag.clone(), t));
        assert(self.entries@.drop_last() =~= old(self).entries@);
    }
}

} // verus!
